//! The HTTP message model: methods, versions, start-lines and their parsers.

use vstd::prelude::*;
use vstd::string::*;

verus! {

/// An error produced while parsing an HTTP start-line.
#[derive(Debug)]
pub enum ParseError {
    /// The version token is none of the four recognized ones; carries the
    /// offending token verbatim.
    InvalidVersion(String),
    /// A request line did not split into exactly three tokens.
    MalformedRequestLine,
    /// A response line did not split into exactly three tokens.
    MalformedResponseLine,
    /// The status-code token of a response line is not an unsigned 16-bit
    /// integer; carries the offending token verbatim.
    InvalidStatusCode(String),
}

/// Compares two string slices by their character sequences.
pub fn str_eq(a: &str, b: &str) -> (r: bool)
    ensures
        r == (a@ == b@),
{
    let alen = a.unicode_len();
    let blen = b.unicode_len();
    if alen != blen {
        return false;
    }
    let mut i: usize = 0;
    while i < alen
        invariant
            i <= alen,
            alen == a@.len(),
            alen == b@.len(),
            forall|k: int| 0 <= k < i ==> a@[k] == b@[k],
        decreases alen - i,
    {
        if a.get_char(i) != b.get_char(i) {
            return false;
        }
        i = i + 1;
    }
    proof {
        assert(a@ =~= b@);
    }
    true
}

/// An HTTP request method. The four methods the proxy treats specially are
/// distinct variants; every other token is kept verbatim in the catch-all
/// variant, so parsing a method never fails.
#[derive(Debug, Eq)]
pub enum HTTPMethod {
    GET,
    POST,
    HEAD,
    CONNECT,
    OTHERS(String),
}

/// The token that serializing a method produces.
pub open spec fn method_token(m: HTTPMethod) -> Seq<char> {
    match m {
        HTTPMethod::GET => "GET"@,
        HTTPMethod::POST => "POST"@,
        HTTPMethod::HEAD => "HEAD"@,
        HTTPMethod::CONNECT => "CONNECT"@,
        HTTPMethod::OTHERS(s) => s@,
    }
}

/// A method value as the parser produces it: the catch-all variant never
/// hides one of the four recognized tokens.
pub open spec fn method_is_canonical(m: HTTPMethod) -> bool {
    match m {
        HTTPMethod::OTHERS(s) =>
            s@ != "GET"@ && s@ != "POST"@ && s@ != "HEAD"@ && s@ != "CONNECT"@,
        _ => true,
    }
}

/// Two methods are alike when they are the same variant carrying the same
/// token; this is what `==` on methods decides.
pub open spec fn method_like(a: HTTPMethod, b: HTTPMethod) -> bool {
    match (a, b) {
        (HTTPMethod::GET, HTTPMethod::GET) => true,
        (HTTPMethod::POST, HTTPMethod::POST) => true,
        (HTTPMethod::HEAD, HTTPMethod::HEAD) => true,
        (HTTPMethod::CONNECT, HTTPMethod::CONNECT) => true,
        (HTTPMethod::OTHERS(x), HTTPMethod::OTHERS(y)) => x@ == y@,
        _ => false,
    }
}

impl PartialEq for HTTPMethod {
    fn eq(&self, other: &Self) -> (r: bool) {
        match (self, other) {
            (HTTPMethod::GET, HTTPMethod::GET) => true,
            (HTTPMethod::POST, HTTPMethod::POST) => true,
            (HTTPMethod::HEAD, HTTPMethod::HEAD) => true,
            (HTTPMethod::CONNECT, HTTPMethod::CONNECT) => true,
            (HTTPMethod::OTHERS(x), HTTPMethod::OTHERS(y)) => str_eq(x.as_str(), y.as_str()),
            _ => false,
        }
    }
}

impl vstd::std_specs::cmp::PartialEqSpecImpl for HTTPMethod {
    open spec fn obeys_eq_spec() -> bool {
        true
    }

    open spec fn eq_spec(&self, other: &Self) -> bool {
        method_like(*self, *other)
    }
}

impl HTTPMethod {
    /// Turns a method token into a method; unknown tokens land in the
    /// catch-all variant verbatim, so this is total.
    pub fn parse(method: &str) -> (r: HTTPMethod)
        ensures
            method_token(r) == method@,
            method_is_canonical(r),
    {
        if str_eq(method, "GET") {
            HTTPMethod::GET
        } else if str_eq(method, "POST") {
            HTTPMethod::POST
        } else if str_eq(method, "HEAD") {
            HTTPMethod::HEAD
        } else if str_eq(method, "CONNECT") {
            HTTPMethod::CONNECT
        } else {
            HTTPMethod::OTHERS(method.to_owned())
        }
    }

    /// The exact inverse of `parse` for every method value.
    pub fn to_string(&self) -> (r: String)
        ensures
            r@ == method_token(*self),
    {
        match self {
            HTTPMethod::GET => String::from_str("GET"),
            HTTPMethod::POST => String::from_str("POST"),
            HTTPMethod::HEAD => String::from_str("HEAD"),
            HTTPMethod::CONNECT => String::from_str("CONNECT"),
            HTTPMethod::OTHERS(method) => method.clone(),
        }
    }
}

impl Default for HTTPMethod {
    fn default() -> (r: Self)
        ensures
            r == HTTPMethod::GET,
    {
        HTTPMethod::GET
    }
}

/// Parsing a method token, serializing the result, and parsing again yields
/// the same method as parsing the token once: two parser outputs with equal
/// tokens are alike, whichever tokens they came from.
pub proof fn lemma_method_round_trip(a: HTTPMethod, b: HTTPMethod)
    requires
        method_is_canonical(a),
        method_is_canonical(b),
        method_token(a) == method_token(b),
    ensures
        method_like(a, b),
{
    reveal_strlit("GET");
    reveal_strlit("POST");
    reveal_strlit("HEAD");
    reveal_strlit("CONNECT");
    assert("GET"@.len() == 3);
    assert("POST"@.len() == 4);
    assert("HEAD"@.len() == 4);
    assert("CONNECT"@.len() == 7);
    assert("POST"@[0] == 'P');
    assert("HEAD"@[0] == 'H');
}

/// An HTTP protocol version; only these four tokens are recognized.
#[derive(Debug, PartialEq, Eq, Structural, Clone, Copy)]
pub enum HTTPVersion {
    HTTPv1,
    HTTPv1_1,
    HTTPv2,
    HTTPv3,
}

/// The token that serializing a version produces.
pub open spec fn version_token(v: HTTPVersion) -> Seq<char> {
    match v {
        HTTPVersion::HTTPv1 => "HTTP/1.0"@,
        HTTPVersion::HTTPv1_1 => "HTTP/1.1"@,
        HTTPVersion::HTTPv2 => "HTTP/2"@,
        HTTPVersion::HTTPv3 => "HTTP/3"@,
    }
}

/// What parsing a version token yields: one of the four versions, or nothing.
pub open spec fn spec_parse_version(t: Seq<char>) -> Option<HTTPVersion> {
    if t == "HTTP/1.0"@ {
        Some(HTTPVersion::HTTPv1)
    } else if t == "HTTP/1.1"@ {
        Some(HTTPVersion::HTTPv1_1)
    } else if t == "HTTP/2"@ {
        Some(HTTPVersion::HTTPv2)
    } else if t == "HTTP/3"@ {
        Some(HTTPVersion::HTTPv3)
    } else {
        None
    }
}

impl HTTPVersion {
    /// Turns a version token into a version; any token outside the closed
    /// set fails with `InvalidVersion` carrying the token.
    pub fn parse(version: &str) -> (r: Result<HTTPVersion, ParseError>)
        ensures
            r is Ok <==> spec_parse_version(version@) is Some,
            r is Ok ==> Some(r->Ok_0) == spec_parse_version(version@),
            r is Err ==> (r->Err_0 matches ParseError::InvalidVersion(s) && s@ == version@),
    {
        if str_eq(version, "HTTP/1.0") {
            Ok(HTTPVersion::HTTPv1)
        } else if str_eq(version, "HTTP/1.1") {
            Ok(HTTPVersion::HTTPv1_1)
        } else if str_eq(version, "HTTP/2") {
            Ok(HTTPVersion::HTTPv2)
        } else if str_eq(version, "HTTP/3") {
            Ok(HTTPVersion::HTTPv3)
        } else {
            Err(ParseError::InvalidVersion(version.to_owned()))
        }
    }

    /// The exact inverse of `parse` for the four recognized tokens.
    pub fn to_string(&self) -> (r: String)
        ensures
            r@ == version_token(*self),
    {
        match self {
            HTTPVersion::HTTPv1 => String::from_str("HTTP/1.0"),
            HTTPVersion::HTTPv1_1 => String::from_str("HTTP/1.1"),
            HTTPVersion::HTTPv2 => String::from_str("HTTP/2"),
            HTTPVersion::HTTPv3 => String::from_str("HTTP/3"),
        }
    }
}

impl Default for HTTPVersion {
    fn default() -> (r: Self)
        ensures
            r == HTTPVersion::HTTPv1_1,
    {
        HTTPVersion::HTTPv1_1
    }
}

/// Serializing any version and parsing the token back yields the version it
/// came from; together with the `parse` contract this is the version
/// round trip for the four recognized tokens.
pub proof fn lemma_version_round_trip(v: HTTPVersion)
    ensures
        spec_parse_version(version_token(v)) == Some(v),
{
    reveal_strlit("HTTP/1.0");
    reveal_strlit("HTTP/1.1");
    reveal_strlit("HTTP/2");
    reveal_strlit("HTTP/3");
    assert("HTTP/1.0"@.len() == 8);
    assert("HTTP/1.1"@.len() == 8);
    assert("HTTP/2"@.len() == 6);
    assert("HTTP/3"@.len() == 6);
    assert("HTTP/1.0"@[7] == '0');
    assert("HTTP/1.1"@[7] == '1');
    assert("HTTP/2"@[5] == '2');
    assert("HTTP/3"@[5] == '3');
}

/// Serializing what a version token parsed to yields that token again: for
/// each of the four recognized tokens the serializer is the exact inverse of
/// the parser.
pub proof fn lemma_version_serialize_parse(t: Seq<char>)
    ensures
        spec_parse_version(t) matches Some(v) ==> version_token(v) == t,
{
}

/// The position of the first space at or after `from`, or the length of the
/// sequence when there is none.
pub open spec fn find_space(s: Seq<char>, from: int) -> int
    decreases s.len() - from,
{
    if 0 <= from < s.len() {
        if s[from] == ' ' {
            from
        } else {
            find_space(s, from + 1)
        }
    } else {
        s.len() as int
    }
}

/// Finds the first space at or after `from`, returning the string's length
/// when there is none.
fn find_space_from(line: &str, from: usize) -> (r: usize)
    requires
        from <= line@.len(),
    ensures
        r == find_space(line@, from as int),
        from <= r <= line@.len(),
        r < line@.len() ==> line@[r as int] == ' ',
{
    let n = line.unicode_len();
    let mut i: usize = from;
    while i < n
        invariant
            from <= i <= n,
            n == line@.len(),
            find_space(line@, from as int) == find_space(line@, i as int),
        decreases n - i,
    {
        if line.get_char(i) == ' ' {
            return i;
        }
        i = i + 1;
    }
    n
}

/// How a request line splits on the space character: exactly three tokens,
/// none of which contains a space, or nothing.
pub open spec fn req_split(s: Seq<char>) -> Option<(Seq<char>, Seq<char>, Seq<char>)> {
    let i = find_space(s, 0);
    let j = find_space(s, i + 1);
    if i == s.len() || j == s.len() || find_space(s, j + 1) != s.len() {
        None
    } else {
        Some((s.subrange(0, i), s.subrange(i + 1, j), s.subrange(j + 1, s.len() as int)))
    }
}

/// How a response line splits on its first two spaces: three tokens of which
/// the third keeps any further spaces verbatim, or nothing.
pub open spec fn resp_split(s: Seq<char>) -> Option<(Seq<char>, Seq<char>, Seq<char>)> {
    let i = find_space(s, 0);
    let j = find_space(s, i + 1);
    if i == s.len() || j == s.len() {
        None
    } else {
        Some((s.subrange(0, i), s.subrange(i + 1, j), s.subrange(j + 1, s.len() as int)))
    }
}

/// A parsed HTTP request start-line: `<method> <path> <version>`.
#[derive(Debug)]
pub struct RequestLine {
    pub method: HTTPMethod,
    pub path: String,
    pub version: HTTPVersion,
}

/// Parses a request start-line. The line must split into exactly three
/// space-separated tokens; the method token is always accepted, the path is
/// kept verbatim, and the version token must be one of the four recognized
/// ones.
pub fn parse_request_header(line: &str) -> (r: Result<RequestLine, ParseError>)
    ensures
        r is Ok <==> (req_split(line@) matches Some(t) && spec_parse_version(t.2) is Some),
        r matches Ok(rl) ==> (req_split(line@) matches Some(t)
            && method_token(rl.method) == t.0
            && method_is_canonical(rl.method)
            && rl.path@ == t.1
            && Some(rl.version) == spec_parse_version(t.2)),
        req_split(line@) is None ==> (r matches Err(e) && e is MalformedRequestLine),
        req_split(line@) matches Some(t) ==> (spec_parse_version(t.2) is None
            ==> (r matches Err(e) && e matches ParseError::InvalidVersion(s) && s@ == t.2)),
{
    let n = line.unicode_len();
    let i = find_space_from(line, 0);
    if i == n {
        return Err(ParseError::MalformedRequestLine);
    }
    let j = find_space_from(line, i + 1);
    if j == n {
        return Err(ParseError::MalformedRequestLine);
    }
    let k = find_space_from(line, j + 1);
    if k != n {
        return Err(ParseError::MalformedRequestLine);
    }
    let method = HTTPMethod::parse(line.substring_char(0, i));
    let path = line.substring_char(i + 1, j).to_owned();
    match HTTPVersion::parse(line.substring_char(j + 1, n)) {
        Ok(version) => Ok(RequestLine { method, path, version }),
        Err(e) => Err(e),
    }
}

/// A parsed HTTP response start-line: `<version> <code> <reason phrase>`.
#[derive(Debug)]
pub struct ResponseLine {
    pub version: HTTPVersion,
    pub code: u16,
    pub text: String,
}

/// Whether `c` is a decimal digit.
pub open spec fn is_digit(c: char) -> bool {
    48 <= c as u32 && c as u32 <= 57
}

/// The numeric value of a decimal digit.
pub open spec fn digit_val(c: char) -> nat {
    (c as u32 - 48) as nat
}

/// Whether every character of `t` is a decimal digit.
pub open spec fn all_digits(t: Seq<char>) -> bool {
    forall|k: int| 0 <= k < t.len() ==> is_digit(t[k])
}

/// The number that a sequence of decimal digits denotes.
pub open spec fn digits_val(t: Seq<char>) -> nat
    decreases t.len(),
{
    if t.len() == 0 {
        0
    } else {
        digits_val(t.drop_last()) * 10 + digit_val(t.last())
    }
}

/// The digits of a status-code token, after an optional leading sign.
pub open spec fn code_digits(t: Seq<char>) -> Seq<char> {
    if t.len() > 0 && t[0] == '+' {
        t.drop_first()
    } else {
        t
    }
}

/// Whether `t` denotes an unsigned 16-bit integer: an optional `+` followed
/// by at least one digit, with a value of at most 65535.
pub open spec fn is_status_code_token(t: Seq<char>) -> bool {
    code_digits(t).len() > 0 && all_digits(code_digits(t)) && digits_val(code_digits(t)) <= 65535
}

/// The value a status-code token denotes.
pub open spec fn status_code_val(t: Seq<char>) -> nat {
    digits_val(code_digits(t))
}

proof fn lemma_digits_val_prefix(t: Seq<char>, k: int)
    requires
        all_digits(t),
        0 <= k <= t.len(),
    ensures
        digits_val(t.subrange(0, k)) <= digits_val(t),
    decreases t.len(),
{
    if k == t.len() {
        assert(t.subrange(0, k) =~= t);
    } else {
        assert(t.subrange(0, k) =~= t.drop_last().subrange(0, k));
        lemma_digits_val_prefix(t.drop_last(), k);
    }
}

/// Reads a status-code token as an unsigned 16-bit integer, or nothing when
/// the token does not denote one.
pub fn parse_status_code(tok: &str) -> (r: Option<u16>)
    ensures
        r is Some <==> is_status_code_token(tok@),
        r matches Some(c) ==> c as nat == status_code_val(tok@),
{
    let n = tok.unicode_len();
    let mut start: usize = 0;
    if n > 0 && tok.get_char(0) == '+' {
        start = 1;
    }
    let ghost d = code_digits(tok@);
    proof {
        assert(d =~= tok@.subrange(start as int, n as int));
    }
    if start >= n {
        return None;
    }
    let mut i: usize = start;
    let mut acc: u32 = 0;
    while i < n
        invariant
            start <= i <= n,
            n == tok@.len(),
            d == code_digits(tok@),
            d == tok@.subrange(start as int, n as int),
            acc == digits_val(d.subrange(0, i - start)),
            acc <= 65535,
            forall|k: int| 0 <= k < i - start ==> is_digit(d[k]),
        decreases n - i,
    {
        let c = tok.get_char(i);
        let u = c as u32;
        if u < 48 || u > 57 {
            proof {
                assert(d[i - start] == tok@[i as int]);
                assert(!all_digits(d)) by {
                    if all_digits(d) {
                        assert(is_digit(d[i - start]));
                    }
                }
            }
            return None;
        }
        let newacc = acc * 10 + (u - 48);
        proof {
            let pre = d.subrange(0, i - start);
            let ext = d.subrange(0, i + 1 - start);
            assert(ext.drop_last() =~= pre);
            assert(ext.last() == d[i - start]);
            assert(d[i - start] == tok@[i as int]);
            assert(digits_val(ext) == digits_val(pre) * 10 + digit_val(d[i - start]));
            assert(digits_val(ext) == newacc);
        }
        if newacc > 65535 {
            proof {
                if all_digits(d) {
                    lemma_digits_val_prefix(d, i + 1 - start);
                    assert(digits_val(d) > 65535);
                }
                assert(!is_status_code_token(tok@));
            }
            return None;
        }
        acc = newacc;
        i = i + 1;
    }
    proof {
        assert(d.subrange(0, n - start) =~= d);
    }
    Some(acc as u16)
}

/// Parses a response start-line. The line must split into exactly three
/// tokens at its first two spaces; the version token must be recognized, the
/// code token must denote an unsigned 16-bit integer, and the remainder
/// becomes the reason phrase verbatim, internal spaces included.
pub fn parse_response_header(line: &str) -> (r: Result<ResponseLine, ParseError>)
    ensures
        r is Ok <==> (resp_split(line@) matches Some(t) && spec_parse_version(t.0) is Some
            && is_status_code_token(t.1)),
        r matches Ok(rl) ==> (resp_split(line@) matches Some(t)
            && Some(rl.version) == spec_parse_version(t.0)
            && rl.code as nat == status_code_val(t.1)
            && rl.text@ == t.2),
        resp_split(line@) is None ==> (r matches Err(e) && e is MalformedResponseLine),
        resp_split(line@) matches Some(t) ==> (spec_parse_version(t.0) is None
            ==> (r matches Err(e) && e matches ParseError::InvalidVersion(s) && s@ == t.0)),
        resp_split(line@) matches Some(t) ==> ((spec_parse_version(t.0) is Some
            && !is_status_code_token(t.1))
            ==> (r matches Err(e) && e matches ParseError::InvalidStatusCode(s) && s@ == t.1)),
{
    let n = line.unicode_len();
    let i = find_space_from(line, 0);
    if i == n {
        return Err(ParseError::MalformedResponseLine);
    }
    let j = find_space_from(line, i + 1);
    if j == n {
        return Err(ParseError::MalformedResponseLine);
    }
    let version = match HTTPVersion::parse(line.substring_char(0, i)) {
        Ok(v) => v,
        Err(e) => {
            return Err(e);
        },
    };
    let code_tok = line.substring_char(i + 1, j);
    let code = match parse_status_code(code_tok) {
        Some(c) => c,
        None => {
            return Err(ParseError::InvalidStatusCode(code_tok.to_owned()));
        },
    };
    let text = line.substring_char(j + 1, n).to_owned();
    Ok(ResponseLine { version, code, text })
}

/// The character a decimal digit prints as.
pub open spec fn dec_digit_char(d: nat) -> char {
    if d == 0 {
        '0'
    } else if d == 1 {
        '1'
    } else if d == 2 {
        '2'
    } else if d == 3 {
        '3'
    } else if d == 4 {
        '4'
    } else if d == 5 {
        '5'
    } else if d == 6 {
        '6'
    } else if d == 7 {
        '7'
    } else if d == 8 {
        '8'
    } else {
        '9'
    }
}

/// The decimal rendering of a number, without sign or leading zeros.
pub open spec fn dec_chars(n: nat) -> Seq<char>
    decreases n,
{
    if n < 10 {
        seq![dec_digit_char(n)]
    } else {
        dec_chars(n / 10).push(dec_digit_char(n % 10))
    }
}

fn digit_str(d: u16) -> (r: &'static str)
    requires
        d < 10,
    ensures
        r@ == seq![dec_digit_char(d as nat)],
{
    proof {
        reveal_strlit("0");
        reveal_strlit("1");
        reveal_strlit("2");
        reveal_strlit("3");
        reveal_strlit("4");
        reveal_strlit("5");
        reveal_strlit("6");
        reveal_strlit("7");
        reveal_strlit("8");
        reveal_strlit("9");
    }
    let r = match d {
        0 => "0",
        1 => "1",
        2 => "2",
        3 => "3",
        4 => "4",
        5 => "5",
        6 => "6",
        7 => "7",
        8 => "8",
        _ => "9",
    };
    proof {
        assert(r@ =~= seq![dec_digit_char(d as nat)]);
    }
    r
}

/// Renders a number in decimal, as the status code prints on the wire.
pub fn dec_string(n: u16) -> (r: String)
    ensures
        r@ == dec_chars(n as nat),
    decreases n,
{
    if n < 10 {
        String::from_str(digit_str(n))
    } else {
        let mut s = dec_string(n / 10);
        s.append(digit_str(n % 10));
        proof {
            assert(s@ =~= dec_chars((n / 10) as nat).push(dec_digit_char((n % 10) as nat)));
        }
        s
    }
}

/// The serialized form of a header list: each entry as `<key>: <value>`
/// followed by a line break, in the list's order.
pub open spec fn headers_chars(hs: Seq<(Seq<char>, Seq<char>)>) -> Seq<char>
    decreases hs.len(),
{
    if hs.len() == 0 {
        Seq::empty()
    } else {
        headers_chars(hs.drop_last()) + hs.last().0 + ": "@ + hs.last().1 + "\r\n"@
    }
}

/// The start-line a request serializes to.
pub open spec fn req_start_chars(m: HTTPMethod, path: Seq<char>, v: HTTPVersion) -> Seq<char> {
    method_token(m) + " "@ + path + " "@ + version_token(v) + "\r\n"@
}

/// The start-line a response serializes to.
pub open spec fn resp_start_chars(v: HTTPVersion, code: nat, text: Seq<char>) -> Seq<char> {
    version_token(v) + " "@ + dec_chars(code) + " "@ + text + "\r\n"@
}

proof fn lemma_encode_utf8_len(s: Seq<char>)
    ensures
        vstd::utf8::encode_utf8(s).len() >= s.len(),
    decreases s.len(),
{
    if s.len() > 0 {
        lemma_encode_utf8_len(s.drop_first());
    }
}

/// A message's memoized serialization: empty until the first `to_bytes`
/// call fills it. From outside this module only an empty one can be made.
#[derive(Debug)]
pub struct SerialCache {
    bytes: Vec<u8>,
}

impl View for SerialCache {
    type V = Seq<u8>;

    closed spec fn view(&self) -> Seq<u8> {
        self.bytes@
    }
}

impl SerialCache {
    /// An empty cache: nothing serialized yet.
    pub fn new() -> (r: SerialCache)
        ensures
            r@ == Seq::<u8>::empty(),
    {
        SerialCache { bytes: Vec::new() }
    }
}

/// An HTTP request message with a memoized serialization cache. The cache is
/// filled by the first `to_bytes` call and never invalidated: callers must
/// mutate the message only before serializing it.
#[derive(Debug)]
pub struct Request {
    pub method: HTTPMethod,
    pub path: String,
    pub version: HTTPVersion,
    pub headers: crate::headers::HeaderMap,
    pub body: Vec<u8>,
    pub cache: SerialCache,
}

/// The characters a request's start-line and headers serialize to.
pub open spec fn req_wire_chars(r: Request) -> Seq<char> {
    req_start_chars(r.method, r.path@, r.version) + headers_chars(r.headers@)
}

/// The bytes a request serializes to: the UTF-8 encoding of its start-line
/// and headers. No blank-line terminator and no body are appended; a caller
/// that needs a complete wire message adds them itself.
pub open spec fn req_wire_bytes(r: Request) -> Seq<u8> {
    vstd::utf8::encode_utf8(req_wire_chars(r))
}

/// How one `to_bytes` call on a request relates the state before the call,
/// the state after it, and the returned bytes.
pub open spec fn req_to_bytes_rel(pre: Request, post: Request, out: Seq<u8>) -> bool {
    &&& post.method == pre.method
    &&& post.path == pre.path
    &&& post.version == pre.version
    &&& post.headers == pre.headers
    &&& post.body == pre.body
    &&& (pre.cache@.len() > 0 ==> out == pre.cache@)
    &&& (pre.cache@.len() == 0 ==> out == req_wire_bytes(pre))
    &&& post.cache@ == out
    &&& out.len() > 0
}

impl Request {
    /// A request with every field at its default: `GET`, empty path,
    /// `HTTP/1.1`, no headers, no body, nothing cached yet.
    pub fn new() -> (r: Request)
        ensures
            r.method == HTTPMethod::GET,
            r.path@ == Seq::<char>::empty(),
            r.version == HTTPVersion::HTTPv1_1,
            r.headers@ == Seq::<(Seq<char>, Seq<char>)>::empty(),
            r.headers.wf(),
            r.body@ == Seq::<u8>::empty(),
            r.cache@ == Seq::<u8>::empty(),
    {
        Request {
            method: HTTPMethod::GET,
            path: String::new(),
            version: HTTPVersion::HTTPv1_1,
            headers: crate::headers::HeaderMap::new(),
            body: Vec::new(),
            cache: SerialCache::new(),
        }
    }

    /// Serializes the start-line and headers, filling the cache on the first
    /// call; later calls return the cached bytes unchanged, whatever was
    /// mutated in between.
    pub fn to_bytes(&mut self) -> (r: Vec<u8>)
        ensures
            req_to_bytes_rel(*old(self), *final(self), r@),
    {
        if self.cache.bytes.len() > 0 {
            return vstd::slice::slice_to_vec(self.cache.bytes.as_slice());
        }
        let mut s = self.method.to_string();
        s.append(" ");
        s.append(self.path.as_str());
        s.append(" ");
        let vtok = self.version.to_string();
        s.append(vtok.as_str());
        s.append("\r\n");
        proof {
            assert(s@ =~= req_start_chars(self.method, self.path@, self.version));
        }
        let ghost start = s@;
        let n = self.headers.len();
        let mut i: usize = 0;
        while i < n
            invariant
                i <= n,
                *self == *old(self),
                n == self.headers@.len(),
                start == req_start_chars(self.method, self.path@, self.version),
                s@ == start + headers_chars(self.headers@.subrange(0, i as int)),
            decreases n - i,
        {
            s.append(self.headers.key_at(i).as_str());
            s.append(": ");
            s.append(self.headers.value_at(i).as_str());
            s.append("\r\n");
            proof {
                let hs = self.headers@;
                assert(hs.subrange(0, i + 1).drop_last() =~= hs.subrange(0, i as int));
                assert(hs.subrange(0, i + 1).last() == hs[i as int]);
                assert(s@ =~= start + headers_chars(hs.subrange(0, i + 1)));
            }
            i = i + 1;
        }
        proof {
            assert(self.headers@.subrange(0, n as int) =~= self.headers@);
            assert(s@ == req_wire_chars(*self));
            lemma_encode_utf8_len(s@);
            reveal_strlit("\r\n");
        }
        let buf = s.as_str().as_bytes_vec();
        self.cache.bytes = vstd::slice::slice_to_vec(buf.as_slice());
        buf
    }
}

impl Default for Request {
    fn default() -> (r: Self)
        ensures
            r.method == HTTPMethod::GET,
            r.path@ == Seq::<char>::empty(),
            r.version == HTTPVersion::HTTPv1_1,
            r.headers@ == Seq::<(Seq<char>, Seq<char>)>::empty(),
            r.headers.wf(),
            r.body@ == Seq::<u8>::empty(),
            r.cache@ == Seq::<u8>::empty(),
    {
        Request::new()
    }
}

/// Calling `to_bytes` twice on a request without mutating it in between
/// returns the same bytes both times: the first call fills the cache, and
/// the second call returns the cache unchanged.
pub proof fn lemma_request_to_bytes_stable(
    s0: Request,
    s1: Request,
    s2: Request,
    b1: Seq<u8>,
    b2: Seq<u8>,
)
    requires
        req_to_bytes_rel(s0, s1, b1),
        req_to_bytes_rel(s1, s2, b2),
    ensures
        b2 == b1,
        s2.cache@ == s1.cache@,
{
}

/// An HTTP response message with a memoized serialization cache, under the
/// same caching contract as `Request`. Serializing it the first time drains
/// the body buffer into the cached bytes.
#[derive(Debug)]
pub struct Response {
    pub version: HTTPVersion,
    pub code: u16,
    pub text: String,
    pub headers: crate::headers::HeaderMap,
    pub body: Vec<u8>,
    pub cache: SerialCache,
}

/// The characters a response's start-line and headers serialize to.
pub open spec fn resp_wire_chars(r: Response) -> Seq<char> {
    resp_start_chars(r.version, r.code as nat, r.text@) + headers_chars(r.headers@)
}

/// The bytes a response serializes to: the UTF-8 encoding of its start-line
/// and headers, followed directly by the body bytes, with no blank-line
/// separator.
pub open spec fn resp_wire_bytes(r: Response) -> Seq<u8> {
    vstd::utf8::encode_utf8(resp_wire_chars(r)) + r.body@
}

/// How one `to_bytes` call on a response relates the state before the call,
/// the state after it, and the returned bytes.
pub open spec fn resp_to_bytes_rel(pre: Response, post: Response, out: Seq<u8>) -> bool {
    &&& post.version == pre.version
    &&& post.code == pre.code
    &&& post.text == pre.text
    &&& post.headers == pre.headers
    &&& (pre.cache@.len() > 0 ==> out == pre.cache@ && post.body == pre.body)
    &&& (pre.cache@.len() == 0 ==> out == resp_wire_bytes(pre) && post.body@ == Seq::<
        u8,
    >::empty())
    &&& post.cache@ == out
    &&& out.len() > 0
}

impl Response {
    /// A response with every field at its default: `HTTP/1.1`, code 0,
    /// empty reason phrase, no headers, no body, nothing cached yet.
    pub fn new() -> (r: Response)
        ensures
            r.version == HTTPVersion::HTTPv1_1,
            r.code == 0u16,
            r.text@ == Seq::<char>::empty(),
            r.headers@ == Seq::<(Seq<char>, Seq<char>)>::empty(),
            r.headers.wf(),
            r.body@ == Seq::<u8>::empty(),
            r.cache@ == Seq::<u8>::empty(),
    {
        Response {
            version: HTTPVersion::HTTPv1_1,
            code: 0,
            text: String::new(),
            headers: crate::headers::HeaderMap::new(),
            body: Vec::new(),
            cache: SerialCache::new(),
        }
    }

    /// Serializes the start-line, the headers and the body, filling the
    /// cache on the first call and draining the body buffer into it; later
    /// calls return the cached bytes unchanged.
    pub fn to_bytes(&mut self) -> (r: Vec<u8>)
        ensures
            resp_to_bytes_rel(*old(self), *final(self), r@),
    {
        if self.cache.bytes.len() > 0 {
            return vstd::slice::slice_to_vec(self.cache.bytes.as_slice());
        }
        let mut s = self.version.to_string();
        s.append(" ");
        let code_s = dec_string(self.code);
        s.append(code_s.as_str());
        s.append(" ");
        s.append(self.text.as_str());
        s.append("\r\n");
        proof {
            assert(s@ =~= resp_start_chars(self.version, self.code as nat, self.text@));
        }
        let ghost start = s@;
        let n = self.headers.len();
        let mut i: usize = 0;
        while i < n
            invariant
                i <= n,
                *self == *old(self),
                n == self.headers@.len(),
                start == resp_start_chars(self.version, self.code as nat, self.text@),
                s@ == start + headers_chars(self.headers@.subrange(0, i as int)),
            decreases n - i,
        {
            s.append(self.headers.key_at(i).as_str());
            s.append(": ");
            s.append(self.headers.value_at(i).as_str());
            s.append("\r\n");
            proof {
                let hs = self.headers@;
                assert(hs.subrange(0, i + 1).drop_last() =~= hs.subrange(0, i as int));
                assert(hs.subrange(0, i + 1).last() == hs[i as int]);
                assert(s@ =~= start + headers_chars(hs.subrange(0, i + 1)));
            }
            i = i + 1;
        }
        proof {
            assert(self.headers@.subrange(0, n as int) =~= self.headers@);
            assert(s@ == resp_wire_chars(*self));
            lemma_encode_utf8_len(s@);
            reveal_strlit("\r\n");
        }
        let mut buf = s.as_str().as_bytes_vec();
        buf.append(&mut self.body);
        self.cache.bytes = vstd::slice::slice_to_vec(buf.as_slice());
        buf
    }
}

impl Default for Response {
    fn default() -> (r: Self)
        ensures
            r.version == HTTPVersion::HTTPv1_1,
            r.code == 0u16,
            r.text@ == Seq::<char>::empty(),
            r.headers@ == Seq::<(Seq<char>, Seq<char>)>::empty(),
            r.headers.wf(),
            r.body@ == Seq::<u8>::empty(),
            r.cache@ == Seq::<u8>::empty(),
    {
        Response::new()
    }
}

/// Calling `to_bytes` twice on a response without mutating it in between
/// returns the same bytes both times; in particular the body drained by the
/// first call does not alter the cached bytes the second call returns.
pub proof fn lemma_response_to_bytes_stable(
    s0: Response,
    s1: Response,
    s2: Response,
    b1: Seq<u8>,
    b2: Seq<u8>,
)
    requires
        resp_to_bytes_rel(s0, s1, b1),
        resp_to_bytes_rel(s1, s2, b2),
    ensures
        b2 == b1,
        s2.cache@ == s1.cache@,
        s2.body == s1.body,
{
}

/// How one header entry renders in the diagnostic form: the key and the
/// value each in double quotes, separated by a colon.
pub open spec fn header_entry_debug_chars(e: (Seq<char>, Seq<char>)) -> Seq<char> {
    "\""@ + e.0 + "\": \""@ + e.1 + "\""@
}

/// The comma-separated entry list of the diagnostic header rendering.
pub open spec fn headers_debug_inner(hs: Seq<(Seq<char>, Seq<char>)>) -> Seq<char>
    decreases hs.len(),
{
    if hs.len() == 0 {
        Seq::empty()
    } else if hs.len() == 1 {
        header_entry_debug_chars(hs[0])
    } else {
        headers_debug_inner(hs.drop_last()) + ", "@ + header_entry_debug_chars(hs.last())
    }
}

/// The diagnostic rendering of a header list: the entries in braces.
pub open spec fn headers_debug_chars(hs: Seq<(Seq<char>, Seq<char>)>) -> Seq<char> {
    "{"@ + headers_debug_inner(hs) + "}"@
}

fn headers_debug_string(h: &crate::headers::HeaderMap) -> (r: String)
    ensures
        r@ == headers_debug_chars(h@),
{
    let mut s = String::from_str("{");
    let n = h.len();
    let mut i: usize = 0;
    while i < n
        invariant
            i <= n,
            n == h@.len(),
            s@ == "{"@ + headers_debug_inner(h@.subrange(0, i as int)),
        decreases n - i,
    {
        if i > 0 {
            s.append(", ");
        }
        s.append("\"");
        s.append(h.key_at(i).as_str());
        s.append("\": \"");
        s.append(h.value_at(i).as_str());
        s.append("\"");
        proof {
            let hs = h@;
            assert(hs.subrange(0, i + 1).drop_last() =~= hs.subrange(0, i as int));
            assert(hs.subrange(0, i + 1).last() == hs[i as int]);
            assert(hs.subrange(0, i + 1)[0] == hs[0]);
            assert(s@ =~= "{"@ + headers_debug_inner(hs.subrange(0, i + 1)));
        }
        i = i + 1;
    }
    proof {
        assert(h@.subrange(0, n as int) =~= h@);
    }
    s.append("}");
    proof {
        assert(s@ =~= headers_debug_chars(h@));
    }
    s
}

/// The human-readable diagnostic rendering of a request: method, path and
/// version, then the headers on a second line. Not the wire format.
pub open spec fn req_debug_chars(r: Request) -> Seq<char> {
    method_token(r.method) + " "@ + r.path@ + " "@ + version_token(r.version) + " \n "@
        + headers_debug_chars(r.headers@)
}

/// The human-readable diagnostic rendering of a response: version, code and
/// reason phrase, then the headers on a second line. Not the wire format.
pub open spec fn resp_debug_chars(r: Response) -> Seq<char> {
    version_token(r.version) + " "@ + dec_chars(r.code as nat) + " "@ + r.text@ + " \n "@
        + headers_debug_chars(r.headers@)
}

impl Request {
    /// Renders the request for logging and diagnostics.
    pub fn to_string(&self) -> (r: String)
        ensures
            r@ == req_debug_chars(*self),
    {
        let mut s = self.method.to_string();
        s.append(" ");
        s.append(self.path.as_str());
        s.append(" ");
        let vtok = self.version.to_string();
        s.append(vtok.as_str());
        s.append(" \n ");
        let h = headers_debug_string(&self.headers);
        s.append(h.as_str());
        proof {
            assert(s@ =~= req_debug_chars(*self));
        }
        s
    }
}

impl Response {
    /// Renders the response for logging and diagnostics.
    pub fn to_string(&self) -> (r: String)
        ensures
            r@ == resp_debug_chars(*self),
    {
        let mut s = self.version.to_string();
        s.append(" ");
        let code_s = dec_string(self.code);
        s.append(code_s.as_str());
        s.append(" ");
        s.append(self.text.as_str());
        s.append(" \n ");
        let h = headers_debug_string(&self.headers);
        s.append(h.as_str());
        proof {
            assert(s@ =~= resp_debug_chars(*self));
        }
        s
    }
}

} // verus!
