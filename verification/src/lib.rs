//! Protocol core of an HTTP/1.x forward proxy.
//!
//! The crate models HTTP request and response start-lines, parses them from
//! raw text, serializes full messages back to bytes with a memoized cache,
//! and produces the fixed byte payloads of the proxy's canned responses.
//! Socket handling and logging live outside this core and consume it.

pub mod headers;
pub mod http_core;
pub mod http_utils;
pub mod proxy;
