//! The proxy's canned HTTP/1.1 responses, as exact byte payloads.
//!
//! Each payload is a complete, self-terminating response: status line plus
//! minimal headers, and in one case a fixed-length body. Writing one to a
//! stream and shutting the stream down is socket work that lives outside
//! this core; the payloads themselves are pinned here byte for byte.

use vstd::prelude::*;
use vstd::string::*;

verus! {

/// The `401 Unauthorized` payload, sent to a client that failed to
/// authenticate.
pub fn unauthorized_payload() -> (r: Vec<u8>)
    ensures
        r@ == vstd::utf8::encode_utf8(
            "HTTP/1.1 401 Unauthorized\r\nConnection: close\r\n\r\n"@,
        ),
{
    "HTTP/1.1 401 Unauthorized\r\nConnection: close\r\n\r\n".as_bytes_vec()
}

/// The `403 Forbidden` payload, sent to a client that may not use the
/// proxy.
pub fn forbidden_payload() -> (r: Vec<u8>)
    ensures
        r@ == vstd::utf8::encode_utf8("HTTP/1.1 403 Forbidden\r\nConnection: close\r\n\r\n"@),
{
    "HTTP/1.1 403 Forbidden\r\nConnection: close\r\n\r\n".as_bytes_vec()
}

/// The `407 Proxy Authentication Required` payload, challenging the client
/// for basic credentials.
pub fn proxy_auth_payload() -> (r: Vec<u8>)
    ensures
        r@ == vstd::utf8::encode_utf8(
            "HTTP/1.1 407 Proxy Authentication Required\r\nProxy-Authenticate: Basic\r\n\r\n"@,
        ),
{
    "HTTP/1.1 407 Proxy Authentication Required\r\nProxy-Authenticate: Basic\r\n\r\n".as_bytes_vec()
}

/// The `400 Bad Request` payload rejecting an attempted HTTPS connection,
/// with its fixed 28-byte body.
pub fn https_not_supported_payload() -> (r: Vec<u8>)
    ensures
        r@ == vstd::utf8::encode_utf8(
            "HTTP/1.1 400 Bad Request\r\nConnection: close\r\nContent-Length: 28\r\n\r\nProxy does not support https"@,
        ),
{
    "HTTP/1.1 400 Bad Request\r\nConnection: close\r\nContent-Length: 28\r\n\r\nProxy does not support https".as_bytes_vec()
}

/// The `200 OK` payload acknowledging a connection the proxy will keep
/// serving.
pub fn http_status_ok_payload() -> (r: Vec<u8>)
    ensures
        r@ == vstd::utf8::encode_utf8(
            "HTTP/1.1 200 OK\r\nProxy-Connection: keep-alive\r\n\r\n"@,
        ),
{
    "HTTP/1.1 200 OK\r\nProxy-Connection: keep-alive\r\n\r\n".as_bytes_vec()
}

} // verus!
