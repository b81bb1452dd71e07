//! HTTP over UDP: requests serialised into datagrams, datagrams parsed into responses, and the
//! decisions of the receive loop that collects the responses to one request.

use vstd::prelude::*;
use vstd::utf8::{valid_utf8, decode_utf8};
use crate::error::{format_error, invalid_value, Error, MessageFormatError, ValueSource};
use crate::interface::{IpAddress, IP};
use crate::syntax::DEFAULT_RECV_TIMEOUT;
use crate::headers::{self, HeaderSeq, Headers};
use crate::text::{self, digits_value, is_digit, is_space};

verus! {

/// An outbound request: a method, a resource (`*` when absent) and headers.
#[derive(Debug)]
pub struct Request {
    pub message: String,
    pub resource: Option<String>,
    pub headers: Headers,
}

/// `NAME: value` and a line break.
pub open spec fn header_line(e: (Seq<char>, Seq<char>)) -> Seq<char> {
    e.0 + seq![':', ' '] + e.1 + seq!['\r', '\n']
}

/// One line for each header, in order.
pub open spec fn header_lines(h: HeaderSeq) -> Seq<char>
    decreases h.len(),
{
    if h.len() == 0 {
        Seq::empty()
    } else {
        header_lines(h.drop_last()) + header_line(h.last())
    }
}

/// `METHOD RESOURCE HTTP/1.1` and a line break.
pub open spec fn request_line(method: Seq<char>, resource: Option<Seq<char>>) -> Seq<char> {
    method + seq![' '] + match resource {
        Some(r) => r,
        None => seq!['*'],
    } + seq![' ', 'H', 'T', 'T', 'P', '/', '1', '.', '1', '\r', '\n']
}

/// The wire text of a request: its request line, its header lines, and a blank line.
pub open spec fn request_text(method: Seq<char>, resource: Option<Seq<char>>, h: HeaderSeq) -> Seq<
    char,
> {
    request_line(method, resource) + header_lines(h) + seq!['\r', '\n']
}

impl Request {
    pub open spec fn resource_view(&self) -> Option<Seq<char>> {
        match self.resource {
            Some(r) => Some(r@),
            None => None,
        }
    }

    pub open spec fn text(&self) -> Seq<char> {
        request_text(self.message@, self.resource_view(), self.headers@)
    }

    /// The request as it is sent.
    pub fn to_string(&self) -> (r: String)
        ensures
            r@ == self.text(),
    {
        let mut out: Vec<char> = Vec::new();
        text::push_str(&mut out, self.message.as_str());
        out.push(' ');
        match &self.resource {
            Some(r) => text::push_str(&mut out, r.as_str()),
            None => out.push('*'),
        }
        text::push_str(&mut out, " HTTP/1.1\r\n");
        proof { reveal_strlit(" HTTP/1.1\r\n"); }
        assert(out@ =~= request_line(self.message@, self.resource_view()));
        let mut i: usize = 0;
        while i < self.headers.entries.len()
            invariant
                i <= self.headers@.len(),
                out@ == request_line(self.message@, self.resource_view()) + header_lines(
                    self.headers@.subrange(0, i as int),
                ),
            decreases self.headers.entries.len() - i,
        {
            let ghost before = out@;
            let e = &self.headers.entries[i];
            text::push_str(&mut out, e.0.as_str());
            out.push(':');
            out.push(' ');
            text::push_str(&mut out, e.1.as_str());
            out.push('\r');
            out.push('\n');
            proof {
                let h = self.headers@.subrange(0, i + 1);
                assert(h.drop_last() =~= self.headers@.subrange(0, i as int));
                assert(h.last() == headers::entry_view(self.headers.entries@[i as int]));
                assert(out@ =~= before + header_line(h.last()));
            }
            i = i + 1;
        }
        assert(self.headers@.subrange(0, i as int) =~= self.headers@);
        out.push('\r');
        out.push('\n');
        assert(out@ =~= self.text());
        text::string_from_chars(out.as_slice())
    }
}

/// The header lines end with a line break whenever there is at least one.
proof fn lemma_header_lines_end(h: HeaderSeq)
    requires
        h.len() > 0,
    ensures
        header_lines(h).len() >= 2,
        header_lines(h).subrange(header_lines(h).len() - 2, header_lines(h).len() as int)
            == seq!['\r', '\n'],
{
    let t = header_lines(h);
    assert(t == header_lines(h.drop_last()) + header_line(h.last()));
    assert(t.subrange(t.len() - 2, t.len() as int) =~= seq!['\r', '\n']);
}

/// Every request begins with its request line and ends with a blank line.
pub proof fn lemma_request_framing(method: Seq<char>, resource: Option<Seq<char>>, h: HeaderSeq)
    ensures
        ({
            let t = request_text(method, resource, h);
            &&& t.len() >= 4
            &&& t.subrange(0, request_line(method, resource).len() as int) == request_line(
                method,
                resource,
            )
            &&& t.subrange(t.len() - 4, t.len() as int) == seq!['\r', '\n', '\r', '\n']
        }),
{
    let l = request_line(method, resource);
    let t = request_text(method, resource, h);
    assert(t.subrange(0, l.len() as int) =~= l);
    if h.len() > 0 {
        lemma_header_lines_end(h);
        let hl = header_lines(h);
        assert(t.subrange(t.len() - 4, t.len() as int) =~= seq!['\r', '\n', '\r', '\n']) by {
            assert(t == l + hl + seq!['\r', '\n']);
            assert(hl.subrange(hl.len() - 2, hl.len() as int) == seq!['\r', '\n']);
            assert(t[t.len() - 4] == hl[hl.len() - 2]);
            assert(t[t.len() - 3] == hl[hl.len() - 1]);
        }
    } else {
        assert(header_lines(h) == Seq::<char>::empty());
        assert(t.subrange(t.len() - 4, t.len() as int) =~= seq!['\r', '\n', '\r', '\n']);
    }
}

/// Builds a request one part at a time.
#[derive(Debug)]
pub struct RequestBuilder {
    pub request: Request,
}

impl RequestBuilder {
    pub open spec fn wf(&self) -> bool {
        self.request.headers.wf()
    }

    /// A request for the method, for any resource, with no headers.
    pub fn new(message: &str) -> (r: Self)
        ensures
            r.wf(),
            r.request.message@ == message@,
            r.request.resource is None,
            r.request.headers@ == Seq::<(Seq<char>, Seq<char>)>::empty(),
    {
        RequestBuilder {
            request: Request { message: message.to_string(), resource: None, headers: Headers::new() },
        }
    }

    pub fn for_resource(&mut self, resource: &str)
        ensures
            final(self).request.message == old(self).request.message,
            final(self).request.headers == old(self).request.headers,
            final(self).request.resource_view() == Some(resource@),
    {
        self.request.resource = Some(resource.to_string());
    }

    pub fn for_any_resource(&mut self)
        ensures
            final(self).request.message == old(self).request.message,
            final(self).request.headers == old(self).request.headers,
            final(self).request.resource is None,
    {
        self.request.resource = None;
    }

    pub fn no_headers(&mut self)
        ensures
            final(self).wf(),
            final(self).request.message == old(self).request.message,
            final(self).request.resource == old(self).request.resource,
            final(self).request.headers@ == Seq::<(Seq<char>, Seq<char>)>::empty(),
    {
        self.request.headers = Headers::new();
    }

    pub fn headers(&mut self, headers: Headers)
        ensures
            final(self).request.message == old(self).request.message,
            final(self).request.resource == old(self).request.resource,
            final(self).request.headers == headers,
    {
        self.request.headers = headers;
    }

    /// Sets a header, replacing any earlier value of the same name.
    pub fn add_header(&mut self, name: &str, value: &str)
        requires
            old(self).wf(),
        ensures
            final(self).wf(),
            final(self).request.message == old(self).request.message,
            final(self).request.resource == old(self).request.resource,
            final(self).request.headers@ == headers::insert(
                old(self).request.headers@,
                name@,
                value@,
            ),
    {
        self.request.headers.insert(name.to_string(), value.to_string());
    }

    /// The request built so far.
    pub fn build(self) -> (r: Request)
        ensures
            r == self.request,
    {
        self.request
    }
}

} // verus!

verus! {

/// Index of the first blank line (`CR LF CR LF`) at or after `i`, or the length if none.
pub open spec fn blank_from(b: Seq<u8>, i: int) -> int
    decreases b.len() - i,
{
    if i < 0 || i + 4 > b.len() {
        b.len() as int
    } else if b[i] == 13 && b[i + 1] == 10 && b[i + 2] == 13 && b[i + 3] == 10 {
        i
    } else {
        blank_from(b, i + 1)
    }
}

/// The header section of a datagram: everything before the first blank line.
pub open spec fn head_bytes(b: Seq<u8>) -> Seq<u8> {
    b.subrange(0, blank_from(b, 0))
}

/// The body of a datagram: everything after the first blank line.
pub open spec fn body_bytes(b: Seq<u8>) -> Seq<u8> {
    let p = blank_from(b, 0);
    if p < b.len() {
        b.subrange(p + 4, b.len() as int)
    } else {
        Seq::empty()
    }
}

/// Index of the first `CR LF` at or after `i`, or the length if none.
pub open spec fn crlf_from(t: Seq<char>, i: int) -> int
    decreases t.len() - i,
{
    if i < 0 || i + 2 > t.len() {
        t.len() as int
    } else if t[i] == '\r' && t[i + 1] == '\n' {
        i
    } else {
        crlf_from(t, i + 1)
    }
}

/// The lines of `t` from `i` on, split at each `CR LF`.
pub open spec fn lines_from(t: Seq<char>, i: int) -> Seq<Seq<char>>
    decreases t.len() - i,
{
    if i < 0 || i > t.len() {
        Seq::empty()
    } else {
        let j = crlf_from(t, i);
        if j < i || j + 2 > t.len() {
            seq![t.subrange(i, t.len() as int)]
        } else {
            seq![t.subrange(i, j)] + lines_from(t, j + 2)
        }
    }
}

/// The kinds of character that the line grammars tell apart.
pub enum CharClass {
    Digit,
    VersionChar,
    NameChar,
    Space,
}

pub open spec fn in_class(k: CharClass, c: char) -> bool {
    match k {
        CharClass::Digit => is_digit(c),
        CharClass::VersionChar => is_digit(c) || c == '.',
        CharClass::NameChar => is_digit(c) || ('a' <= c && c <= 'z') || ('A' <= c && c <= 'Z') || c
            == '_' || c == '-' || c == '.',
        CharClass::Space => is_space(c),
    }
}

/// The index of the first character at or after `i` outside the class.
pub open spec fn run_end(s: Seq<char>, i: int, k: CharClass) -> int
    decreases s.len() - i,
{
    if i < 0 || i >= s.len() {
        s.len() as int
    } else if in_class(k, s[i]) {
        run_end(s, i + 1, k)
    } else {
        i
    }
}

pub open spec fn no_line_feed(s: Seq<char>) -> bool {
    forall|i: int| 0 <= i < s.len() ==> s[i] != '\n'
}

/// An HTTP version: digits, a dot, digits.
pub open spec fn http_version(s: Seq<char>) -> bool {
    let d = run_end(s, 0, CharClass::Digit);
    &&& 0 < d < s.len()
    &&& s[d] == '.'
    &&& d + 1 < s.len()
    &&& run_end(s, d + 1, CharClass::Digit) == s.len()
}

/// The version, code and reason phrase of a status line `HTTP/{version} {code} {reason}`,
/// the version being digits, a dot, digits.
pub open spec fn status_parts(line: Seq<char>) -> Option<(Seq<char>, Seq<char>, Seq<char>)> {
    let v = run_end(line, 5, CharClass::VersionChar);
    let c = run_end(line, v + 1, CharClass::Digit);
    if text::starts(line, "HTTP/"@) && v > 5 && v < line.len() && http_version(line.subrange(5, v))
        && line[v] == ' ' && c > v + 1 && c
        < line.len() && line[c] == ' ' && no_line_feed(line.subrange(c + 1, line.len() as int)) {
        Some((line.subrange(5, v), line.subrange(v + 1, c), line.subrange(c + 1, line.len() as int)))
    } else {
        None
    }
}

/// The name and value of a header line `{name} \s* : \s* {value}`; a name is letters, digits,
/// `_`, `-` and `.` (as in `BOOTID.UPNP.ORG`).
pub open spec fn header_parts(line: Seq<char>) -> Option<(Seq<char>, Seq<char>)> {
    let n = run_end(line, 0, CharClass::NameChar);
    let s = run_end(line, n, CharClass::Space);
    let v = run_end(line, s + 1, CharClass::Space);
    if n > 0 && s < line.len() && line[s] == ':' && no_line_feed(
        line.subrange(v, line.len() as int),
    ) {
        Some((line.subrange(0, n), line.subrange(v, line.len() as int)))
    } else {
        None
    }
}

pub open spec fn upper_char(c: char) -> char {
    if 'a' <= c && c <= 'z' {
        (((c as u32) - 32) as u8) as char
    } else {
        c
    }
}

/// The ASCII upper-case form of a header name.
pub open spec fn upper(s: Seq<char>) -> Seq<char> {
    s.map_values(|c: char| upper_char(c))
}

/// The first line that is not a header line.
pub open spec fn first_bad_line(ls: Seq<Seq<char>>) -> Option<Seq<char>>
    decreases ls.len(),
{
    if ls.len() == 0 {
        None
    } else if header_parts(ls[0]) is None {
        Some(ls[0])
    } else {
        first_bad_line(ls.drop_first())
    }
}

/// The headers that the lines set, names upper-cased; a later line wins over an earlier one of
/// the same name.
pub open spec fn headers_of(ls: Seq<Seq<char>>) -> HeaderSeq
    decreases ls.len(),
{
    if ls.len() == 0 {
        Seq::empty()
    } else {
        let (name, value) = header_parts(ls.last())->Some_0;
        headers::insert(headers_of(ls.drop_last()), upper(name), value)
    }
}

/// Why a datagram is not a response.
pub enum Fault {
    /// The header section is not UTF-8.
    Encoding,
    /// The status line does not have the form `HTTP/{version} {code} {reason}`.
    StatusLine(Seq<char>),
    /// The status code is not 200.
    StatusCode(Seq<char>),
    /// A header line does not have the form `{name}: {value}`.
    HeaderLine(Seq<char>),
}

/// A parsed response: version, reason phrase, headers and body.
pub struct ResponseView {
    pub version: Seq<char>,
    pub message: Seq<char>,
    pub headers: HeaderSeq,
    pub body: Seq<u8>,
}

/// What a datagram parses into.
pub open spec fn response_of(b: Seq<u8>) -> Result<ResponseView, Fault> {
    let head = head_bytes(b);
    if !valid_utf8(head) {
        Err(Fault::Encoding)
    } else {
        let lines = lines_from(decode_utf8(head), 0);
        let status = lines[0];
        match status_parts(status) {
            None => Err(Fault::StatusLine(status)),
            Some((version, code, message)) => if digits_value(code) != 200 {
                Err(Fault::StatusCode(code))
            } else {
                match first_bad_line(lines.drop_first()) {
                    Some(l) => Err(Fault::HeaderLine(l)),
                    None => Ok(
                        ResponseView {
                            version,
                            message,
                            headers: headers_of(lines.drop_first()),
                            body: body_bytes(b),
                        },
                    ),
                }
            },
        }
    }
}

/// The error reported for a fault.
pub open spec fn fault_error(e: MessageFormatError, f: Fault) -> bool {
    match f {
        Fault::Encoding => e is SourceEncoding,
        Fault::StatusLine(l) => invalid_value(e, ValueSource::Header, "STATUS"@, l),
        Fault::StatusCode(c) => invalid_value(e, ValueSource::Header, "STATUS"@, c),
        Fault::HeaderLine(l) => invalid_value(e, ValueSource::Header, "?"@, l),
    }
}

} // verus!

verus! {

/// The status line of a response.
#[derive(Debug)]
pub struct ResponseStatus {
    pub protocol: String,
    pub version: String,
    pub code: u16,
    pub message: String,
}

/// A response received over HTTPU: its status, its headers keyed by upper-case name, and its
/// body when there is one.
#[derive(Debug)]
pub struct Response {
    pub status: ResponseStatus,
    pub headers: Headers,
    pub body: Option<Vec<u8>>,
}

/// `r` is the response that `v` describes.
pub open spec fn response_matches(r: Response, v: ResponseView) -> bool {
    &&& r.status.protocol@ == "HTTP"@
    &&& r.status.version@ == v.version
    &&& r.status.code == 200
    &&& r.status.message@ == v.message
    &&& r.headers@ == v.headers
    &&& r.headers.wf()
    &&& match r.body {
        None => v.body.len() == 0,
        Some(b) => v.body.len() > 0 && b@ == v.body,
    }
}

/// Relies on `std::str::from_utf8`: it accepts exactly the valid UTF-8 byte strings, and the
/// text's characters are their decoding.
#[verifier::external_body]
fn utf8_str(b: &[u8]) -> (r: Option<&str>)
    ensures
        r is Some <==> valid_utf8(b@),
        r matches Some(s) ==> s@ == decode_utf8(b@),
{
    std::str::from_utf8(b).ok()
}

/// The index of the first blank line, or the length if there is none.
fn find_blank(b: &[u8]) -> (r: usize)
    ensures
        r as int == blank_from(b@, 0),
        r <= b@.len(),
        r < b@.len() ==> r + 4 <= b@.len(),
{
    let mut i: usize = 0;
    while b.len() - i >= 4 && !(b[i] == 13 && b[i + 1] == 10 && b[i + 2] == 13 && b[i + 3] == 10)
        invariant
            i <= b@.len(),
            blank_from(b@, 0) == blank_from(b@, i as int),
        decreases b.len() - i,
    {
        i = i + 1;
    }
    if b.len() - i >= 4 {
        i
    } else {
        b.len()
    }
}

fn find_crlf(t: &[char], i: usize) -> (r: usize)
    requires
        i <= t@.len(),
    ensures
        r as int == crlf_from(t@, i as int),
        i <= r <= t@.len(),
{
    let mut k: usize = i;
    while t.len() - k >= 2 && !(t[k] == '\r' && t[k + 1] == '\n')
        invariant
            i <= k <= t@.len(),
            crlf_from(t@, i as int) == crlf_from(t@, k as int),
        decreases t.len() - k,
    {
        k = k + 1;
    }
    if t.len() - k >= 2 {
        k
    } else {
        t.len()
    }
}

pub open spec fn lines_view(v: Seq<Vec<char>>) -> Seq<Seq<char>> {
    v.map_values(|l: Vec<char>| l@)
}

/// The lines of `t`, split at each `CR LF`.
fn split_lines(t: &[char]) -> (r: Vec<Vec<char>>)
    ensures
        lines_view(r@) == lines_from(t@, 0),
{
    let mut out: Vec<Vec<char>> = Vec::new();
    let mut i: usize = 0;
    loop
        invariant
            i <= t@.len(),
            lines_view(out@) + lines_from(t@, i as int) == lines_from(t@, 0),
        decreases t@.len() - i,
    {
        let j = find_crlf(t, i);
        if t.len() - j < 2 {
            let line = vstd::slice::slice_to_vec(text::slice_range(t, i, t.len()));
            let ghost before = lines_view(out@);
            out.push(line);
            assert(lines_view(out@) =~= before.push(line@));
            assert(lines_view(out@) =~= lines_from(t@, 0));
            return out;
        }
        let line = vstd::slice::slice_to_vec(text::slice_range(t, i, j));
        let ghost before = lines_view(out@);
        out.push(line);
        assert(lines_view(out@) =~= before.push(line@));
        assert(lines_from(t@, i as int) == seq![line@] + lines_from(t@, j + 2));
        assert(lines_view(out@) + lines_from(t@, j + 2) =~= before + lines_from(t@, i as int));
        i = j + 2;
    }
}

fn is_in_class(k: &CharClass, c: char) -> (r: bool)
    ensures
        r == in_class(*k, c),
{
    match k {
        CharClass::Digit => '0' <= c && c <= '9',
        CharClass::VersionChar => ('0' <= c && c <= '9') || c == '.',
        CharClass::NameChar => ('0' <= c && c <= '9') || ('a' <= c && c <= 'z') || ('A' <= c && c
            <= 'Z') || c == '_' || c == '-' || c == '.',
        CharClass::Space => text::is_space_char(c),
    }
}

/// The end of the run of characters of the class that starts at `i`.
pub fn scan(s: &[char], i: usize, k: CharClass) -> (r: usize)
    requires
        i <= s@.len(),
    ensures
        r as int == run_end(s@, i as int, k),
        i <= r <= s@.len(),
{
    let mut j: usize = i;
    while j < s.len() && is_in_class(&k, s[j])
        invariant
            i <= j <= s@.len(),
            run_end(s@, i as int, k) == run_end(s@, j as int, k),
        decreases s.len() - j,
    {
        j = j + 1;
    }
    j
}

pub fn has_no_line_feed(s: &[char]) -> (r: bool)
    ensures
        r == no_line_feed(s@),
{
    let mut i: usize = 0;
    while i < s.len()
        invariant
            i <= s@.len(),
            forall|j: int| 0 <= j < i ==> s@[j] != '\n',
        decreases s.len() - i,
    {
        if s[i] == '\n' {
            return false;
        }
        i = i + 1;
    }
    true
}

/// Whether the characters are digits, a dot, digits.
fn is_http_version(s: &[char]) -> (r: bool)
    ensures
        r == http_version(s@),
{
    let d = scan(s, 0, CharClass::Digit);
    if !(0 < d && d < s.len() && s[d] == '.' && d + 1 < s.len()) {
        return false;
    }
    scan(s, d + 1, CharClass::Digit) == s.len()
}

/// The bounds of the version and code in a status line.
fn parse_status_line(line: &[char]) -> (r: Option<(usize, usize)>)
    ensures
        r is Some <==> status_parts(line@) is Some,
        r matches Some((v, c)) ==> v as int == run_end(line@, 5, CharClass::VersionChar) && c as int
            == run_end(line@, v + 1, CharClass::Digit) && v < c < line@.len() && status_parts(line@) == Some(
            (
                line@.subrange(5, v as int),
                line@.subrange(v + 1, c as int),
                line@.subrange(c + 1, line@.len() as int),
            ),
        ),
{
    proof { reveal_strlit("HTTP/"); }
    if !text::starts_with(line, "HTTP/") {
        return None;
    }
    let v = scan(line, 5, CharClass::VersionChar);
    if !(v > 5 && v < line.len() && line[v] == ' ') {
        return None;
    }
    if !is_http_version(text::slice_range(line, 5, v)) {
        return None;
    }
    let c = scan(line, v + 1, CharClass::Digit);
    if !(c > v + 1 && c < line.len() && line[c] == ' ') {
        return None;
    }
    if !has_no_line_feed(text::slice_range(line, c + 1, line.len())) {
        return None;
    }
    Some((v, c))
}

fn upper_of(c: char) -> (r: char)
    ensures
        r == upper_char(c),
{
    if 'a' <= c && c <= 'z' {
        (((c as u32) - 32) as u8) as char
    } else {
        c
    }
}

/// The name, upper-cased, and value of a header line.
fn parse_header_line(line: &[char]) -> (r: Option<(String, String)>)
    ensures
        r is Some <==> header_parts(line@) is Some,
        r matches Some((name, value)) ==> name@ == upper(header_parts(line@)->Some_0.0)
            && value@ == header_parts(line@)->Some_0.1,
{
    let n = scan(line, 0, CharClass::NameChar);
    let s = scan(line, n, CharClass::Space);
    if !(n > 0 && s < line.len() && line[s] == ':') {
        return None;
    }
    let v = scan(line, s + 1, CharClass::Space);
    let value = text::slice_range(line, v, line.len());
    if !has_no_line_feed(value) {
        return None;
    }
    let mut name: Vec<char> = Vec::new();
    let mut i: usize = 0;
    while i < n
        invariant
            i <= n <= line@.len(),
            name@ == upper(line@.subrange(0, i as int)),
        decreases n - i,
    {
        name.push(upper_of(line[i]));
        i = i + 1;
        assert(name@ =~= upper(line@.subrange(0, i as int)));
    }
    Some((text::string_from_chars(name.as_slice()), text::string_from_chars(value)))
}

impl Response {
    /// Parses a datagram: a `200` status line, header lines, a blank line, and an optional body.
    pub fn parse(bytes: &[u8]) -> (r: Result<Response, MessageFormatError>)
        ensures
            r is Ok <==> response_of(bytes@) is Ok,
            r matches Ok(resp) ==> response_matches(resp, response_of(bytes@)->Ok_0),
            r matches Err(e) ==> fault_error(e, response_of(bytes@)->Err_0),
    {
        let p = find_blank(bytes);
        let head = vstd::slice::slice_subrange(bytes, 0, p);
        let s = match utf8_str(head) {
            None => {
                return Err(MessageFormatError::SourceEncoding);
            },
            Some(s) => s,
        };
        let t = text::chars_of(s);
        let lines = split_lines(t.as_slice());
        let ghost ls = lines_view(lines@);
        assert(ls.len() > 0) by {
            reveal_with_fuel(lines_from, 1);
        }
        let status = &lines[0];
        assert(status@ == ls[0]);
        let vc = parse_status_line(status.as_slice());
        let (v, c) = match vc {
            None => {
                let line = text::string_from_chars(status.as_slice());
                return Err(crate::error::invalid_header_value_string("STATUS".to_string(), line));
            },
            Some(vc) => vc,
        };
        assert(v < c && c < status@.len());
        let msg_end: usize = status.len();
        assert(c < msg_end);
        let msg_start: usize = c + 1;
        let code = text::slice_range(status.as_slice(), v + 1, c);
        let ok = match text::parse_unsigned(code, 65535) {
            Some(n) => n == 200,
            None => false,
        };
        proof {
            assert(code@.len() > 0 && text::all_digits(code@)) by {
                assert forall|i: int| 0 <= i < code@.len() implies is_digit(#[trigger] code@[i]) by {
                    lemma_run_in_class(status@, v + 1, CharClass::Digit, v + 1 + i);
                }
            }
            assert(text::unsigned_digits(code@) == code@);
            if !ok && text::parses_as_unsigned(code@, 65535) {
                assert(digits_value(code@) != 200);
            }
        }
        if !ok {
            let code_text = text::string_from_chars(code);
            return Err(crate::error::invalid_header_value_string("STATUS".to_string(), code_text));
        }
        let st = ResponseStatus {
            protocol: "HTTP".to_string(),
            version: text::string_from_chars(text::slice_range(status.as_slice(), 5, v)),
            code: 200,
            message: text::string_from_chars(
                text::slice_range(status.as_slice(), msg_start, msg_end),
            ),
        };
        let ghost parts = status_parts(ls[0])->Some_0;
        assert(valid_utf8(head_bytes(bytes@)));
        assert(ls == lines_from(decode_utf8(head_bytes(bytes@)), 0));
        assert(status_parts(ls[0]) is Some);
        assert(digits_value(parts.1) == 200);
        let mut headers = Headers::new();
        let mut k: usize = 1;
        while k < lines.len()
            invariant
                1 <= k <= lines@.len(),
                ls == lines_view(lines@),
                ls.len() > 0,
                p as int == blank_from(bytes@, 0),
                p <= bytes@.len(),
                p < bytes@.len() ==> p + 4 <= bytes@.len(),
                valid_utf8(head_bytes(bytes@)),
                ls == lines_from(decode_utf8(head_bytes(bytes@)), 0),
                status_parts(ls[0]) == Some(parts),
                digits_value(parts.1) == 200,
                st.protocol@ == "HTTP"@,
                st.code == 200,
                st.version@ == parts.0,
                st.message@ == parts.2,
                headers.wf(),
                headers@ == headers_of(ls.subrange(1, k as int)),
                first_bad_line(ls.drop_first()) == first_bad_line(ls.subrange(k as int, ls.len() as int)),
            decreases lines.len() - k,
        {
            let line = &lines[k];
            assert(line@ == ls[k as int]);
            let ghost rest = ls.subrange(k as int, ls.len() as int);
            assert(rest[0] == ls[k as int]);
            assert(rest.len() > 0);
            match parse_header_line(line.as_slice()) {
                None => {
                    assert(first_bad_line(rest) == Some(ls[k as int]));
                    let l = text::string_from_chars(line.as_slice());
                    return Err(crate::error::invalid_header_value_string("?".to_string(), l));
                },
                Some((name, value)) => {
                    assert(rest.drop_first() =~= ls.subrange(k + 1, ls.len() as int));
                    assert(ls.subrange(1, k + 1).drop_last() =~= ls.subrange(1, k as int));
                    headers.insert(name, value);
                },
            }
            k = k + 1;
        }
        assert(ls.subrange(1, k as int) =~= ls.drop_first());
        assert(ls.subrange(k as int, ls.len() as int).len() == 0);
        let body = if bytes.len() - p >= 4 {
            let b = vstd::slice::slice_to_vec(vstd::slice::slice_subrange(bytes, p + 4, bytes.len()));
            if b.len() == 0 {
                None
            } else {
                Some(b)
            }
        } else {
            None
        };
        Ok(Response { status: st, headers, body })
    }

    /// The value of a header, by upper-case name.
    pub fn header(&self, name: &str) -> (r: Option<&String>)
        requires
            self.headers.wf(),
        ensures
            r is Some <==> headers::lookup(self.headers@, name@) is Some,
            r matches Some(v) ==> headers::lookup(self.headers@, name@) == Some(v@),
    {
        self.headers.get(name)
    }

    /// The names of the headers, in order.
    pub fn headers_used(&self) -> (r: Vec<String>)
        ensures
            r@.len() == self.headers@.len(),
            forall|i: int| 0 <= i < r@.len() ==> r@[i]@ == self.headers@[i].0,
    {
        let mut out: Vec<String> = Vec::new();
        let mut i: usize = 0;
        while i < self.headers.entries.len()
            invariant
                i <= self.headers@.len(),
                out@.len() == i,
                forall|k: int| 0 <= k < i ==> out@[k]@ == self.headers@[k].0,
            decreases self.headers.entries.len() - i,
        {
            assert(self.headers@[i as int] == headers::entry_view(self.headers.entries@[i as int]));
            out.push(self.headers.entries[i].0.clone());
            i = i + 1;
        }
        out
    }

    pub fn status(&self) -> (r: &ResponseStatus)
        ensures
            r == &self.status,
    {
        &self.status
    }
}

pub proof fn lemma_run_end_stop(s: Seq<char>, i: int, k: CharClass)
    requires
        0 <= i <= s.len(),
        run_end(s, i, k) < s.len(),
    ensures
        !in_class(k, s[run_end(s, i, k)]),
    decreases s.len() - i,
{
    if i < s.len() && in_class(k, s[i]) {
        lemma_run_end_stop(s, i + 1, k);
    }
}

pub proof fn lemma_run_in_class(s: Seq<char>, i: int, k: CharClass, m: int)
    requires
        0 <= i <= m < run_end(s, i, k),
    ensures
        in_class(k, s[m]),
    decreases m - i,
{
    if i < m {
        lemma_run_in_class(s, i + 1, k, m);
    }
}

} // verus!

verus! {

/// How the socket for one exchange is set up.
#[derive(Debug)]
pub struct Options {
    /// The interface to bind to; the wildcard address when `None`.
    pub network_interface: Option<String>,
    /// The IP version to use; IPv4 when `None`.
    pub network_version: Option<IP>,
    /// The local port; `0` for an ephemeral one.
    pub local_port: u16,
    /// The receive timeout, in seconds.
    pub recv_timeout: u64,
    /// The TTL of sent packets.
    pub packet_ttl: u32,
    /// Keep multicast packets on the local network (multicast TTL 1 rather than 10).
    pub local_network_only: bool,
    /// Receive one's own multicast packets too.
    pub loop_back_also: bool,
}

impl Options {
    /// No interface, any version, an ephemeral port, a two-second timeout, TTL 2.
    pub fn new() -> (r: Options)
        ensures
            r.network_interface is None,
            r.network_version is None,
            r.local_port == 0,
            r.recv_timeout == DEFAULT_RECV_TIMEOUT,
            r.packet_ttl == 2,
            !r.local_network_only,
            !r.loop_back_also,
    {
        Options {
            network_interface: None,
            network_version: None,
            local_port: 0,
            recv_timeout: DEFAULT_RECV_TIMEOUT,
            packet_ttl: 2,
            local_network_only: false,
            loop_back_also: false,
        }
    }
}

/// A socket address: an IP address and a port.
#[derive(Clone, Copy, Debug, PartialEq, Eq, Structural)]
pub struct SocketAddress {
    pub ip: IpAddress,
    pub port: u16,
}

/// The IPv4 SSDP multicast group and port, `239.255.255.250:1900`.
pub fn multicast_address() -> (r: SocketAddress)
    ensures
        r == (SocketAddress { ip: IpAddress::V4(239, 255, 255, 250), port: 1900 }),
{
    SocketAddress { ip: IpAddress::V4(239, 255, 255, 250), port: 1900 }
}

/// How to set up the socket for an exchange with `to`.
#[derive(Debug, PartialEq, Eq, Structural)]
pub struct SocketPlan {
    /// The local address to bind.
    pub local: SocketAddress,
    pub read_timeout: u64,
    pub packet_ttl: u32,
    /// Join the IPv4 multicast group `to` on the local address.
    pub join_multicast_v4: bool,
    /// The IPv4 multicast TTL, when one is set.
    pub multicast_ttl_v4: Option<u32>,
    pub multicast_loop: bool,
}

/// The local address: the interface's address when one was found, else the wildcard of the
/// version asked for (IPv4 unless IPv6 was asked for).
pub open spec fn local_address(interface_address: Option<IpAddress>, options: Options) -> SocketAddress {
    SocketAddress {
        ip: match interface_address {
            Some(a) => a,
            None => match options.network_version {
                Some(IP::V6) => IpAddress::V6(0, 0, 0, 0, 0, 0, 0, 0),
                _ => IpAddress::V4(0, 0, 0, 0),
            },
        },
        port: options.local_port,
    }
}

/// Decides how to set up the socket for an exchange with `to`, given the address found for the
/// chosen interface: bind, timeouts and TTL; for IPv4 join the group with multicast TTL 1 on the
/// local network only, else 10; for IPv6 only the loop-back choice. Mixed versions are an
/// invalid socket value.
pub fn socket_plan(
    to: &SocketAddress,
    interface_address: Option<IpAddress>,
    options: &Options,
) -> (r: Result<SocketPlan, Error>)
    ensures
        r is Ok <==> to.ip.version() == local_address(interface_address, *options).ip.version(),
        r matches Ok(p) ==> p.local == local_address(interface_address, *options) && p.read_timeout
            == options.recv_timeout && p.packet_ttl == options.packet_ttl && p.multicast_loop
            == options.loop_back_also && (p.join_multicast_v4 <==> to.ip.version() == IP::V4)
            && p.multicast_ttl_v4 == if to.ip.version() == IP::V4 {
            Some(if options.local_network_only {
                1u32
            } else {
                10u32
            })
        } else {
            None::<u32>
        },
        r matches Err(e) ==> format_error(e, |m| crate::error::invalid_value_of(m, ValueSource::Socket, "to, local"@)),
{
    let ip = match interface_address {
        Some(a) => a,
        None => match options.network_version {
            Some(IP::V6) => IpAddress::unspecified(IP::V6),
            _ => IpAddress::unspecified(IP::V4),
        },
    };
    let local = SocketAddress { ip, port: options.local_port };
    let to_v4 = to.ip.is_ipv4();
    let local_v4 = local.ip.is_ipv4();
    if to_v4 && local_v4 {
        Ok(SocketPlan {
            local,
            read_timeout: options.recv_timeout,
            packet_ttl: options.packet_ttl,
            join_multicast_v4: true,
            multicast_ttl_v4: Some(if options.local_network_only { 1 } else { 10 }),
            multicast_loop: options.loop_back_also,
        })
    } else if !to_v4 && !local_v4 {
        Ok(SocketPlan {
            local,
            read_timeout: options.recv_timeout,
            packet_ttl: options.packet_ttl,
            join_multicast_v4: false,
            multicast_ttl_v4: None,
            multicast_loop: options.loop_back_also,
        })
    } else {
        let families = if to_v4 { "IPv4, IPv6" } else { "IPv6, IPv4" };
        Err(Error::MessageFormat(crate::error::invalid_socket_value("to, local", families)))
    }
}

} // verus!

verus! {

/// What one receive on the socket gave.
#[derive(Debug)]
pub enum RecvEvent {
    /// A datagram arrived; it holds the bytes received.
    Datagram(Vec<u8>),
    /// The receive timed out: no more answers are coming.
    WouldBlock,
    /// The receive failed for another reason, described by the text.
    Failed(String),
}

/// What the receive loop does next.
#[derive(Debug)]
pub enum RecvAction {
    /// Receive again.
    Continue,
    /// Stop and hand back the responses gathered.
    Finish,
    /// Stop and report the error.
    Fail(Error),
}

/// The responses that the datagrams parse into, in order; the others are dropped.
pub open spec fn parsed_responses(ds: Seq<Seq<u8>>) -> Seq<ResponseView>
    decreases ds.len(),
{
    if ds.len() == 0 {
        Seq::empty()
    } else {
        let rest = parsed_responses(ds.drop_last());
        match response_of(ds.last()) {
            Ok(v) => rest.push(v),
            Err(_) => rest,
        }
    }
}

/// Each response is the one its view describes.
pub open spec fn all_match(rs: Seq<Response>, vs: Seq<ResponseView>) -> bool {
    rs.len() == vs.len() && forall|i: int| 0 <= i < rs.len() ==> response_matches(rs[i], vs[i])
}

/// One step of the receive loop: a datagram that parses is kept and one that does not is
/// dropped, and either way the loop goes on; a timeout ends it; any other failure ends it with
/// a transport error.
pub fn on_receive(responses: &mut Vec<Response>, event: RecvEvent) -> (a: RecvAction)
    ensures
        match event {
            RecvEvent::Datagram(b) => a is Continue && match response_of(b@) {
                Ok(v) => final(responses)@.len() == old(responses)@.len() + 1
                    && final(responses)@.drop_last() == old(responses)@ && response_matches(
                    final(responses)@.last(),
                    v,
                ),
                Err(_) => final(responses)@ == old(responses)@,
            },
            RecvEvent::WouldBlock => a is Finish && final(responses)@ == old(responses)@,
            RecvEvent::Failed(m) => final(responses)@ == old(responses)@ && (a matches RecvAction::Fail(
                Error::NetworkTransport(t),
            ) && t@ == m@),
        },
{
    match event {
        RecvEvent::Datagram(b) => {
            match Response::parse(b.as_slice()) {
                Ok(r) => {
                    responses.push(r);
                    assert(responses@.drop_last() =~= old(responses)@);
                },
                Err(_) => {},
            }
            RecvAction::Continue
        },
        RecvEvent::WouldBlock => RecvAction::Finish,
        RecvEvent::Failed(m) => RecvAction::Fail(Error::NetworkTransport(m)),
    }
}

/// Runs the receive loop over datagrams that arrive in order, followed by a timeout: it
/// finishes without error and keeps exactly the datagrams that parse, in order.
pub fn multicast_collect(datagrams: &Vec<Vec<u8>>) -> (r: Vec<Response>)
    ensures
        all_match(r@, parsed_responses(datagrams@.map_values(|d: Vec<u8>| d@))),
{
    let ghost ds = datagrams@.map_values(|d: Vec<u8>| d@);
    let mut responses: Vec<Response> = Vec::new();
    let mut i: usize = 0;
    let n = datagrams.len();
    while i < n
        invariant
            n == ds.len(),
            n == datagrams@.len(),
            ds == datagrams@.map_values(|d: Vec<u8>| d@),
            i <= n,
            all_match(responses@, parsed_responses(ds.subrange(0, i as int))),
        decreases n - i,
    {
        let d = vstd::slice::slice_to_vec(datagrams[i].as_slice());
        assert(d@ == ds[i as int]);
        let ghost before = responses@;
        let a = on_receive(&mut responses, RecvEvent::Datagram(d));
        proof {
            let s = ds.subrange(0, i + 1);
            assert(s.drop_last() =~= ds.subrange(0, i as int));
            assert(s.last() == ds[i as int]);
            match response_of(ds[i as int]) {
                Ok(v) => {
                    assert forall|k: int| 0 <= k < responses@.len() implies response_matches(
                        responses@[k],
                        parsed_responses(s)[k],
                    ) by {
                        if k < before.len() {
                            assert(responses@[k] == responses@.drop_last()[k]);
                        }
                    }
                },
                Err(_) => {},
            }
        }
        i = i + 1;
    }
    on_receive(&mut responses, RecvEvent::WouldBlock);
    assert(ds.subrange(0, n as int) =~= ds);
    responses
}

} // verus!

verus! {

pub open spec fn crlf() -> Seq<char> {
    seq!['\r', '\n']
}

/// `NAME: value` without its line break.
pub open spec fn header_text(e: (Seq<char>, Seq<char>)) -> Seq<char> {
    e.0 + seq![':', ' '] + e.1
}

/// A line break before each header line, in order.
pub open spec fn tail_lines(hs: HeaderSeq) -> Seq<char>
    decreases hs.len(),
{
    if hs.len() == 0 {
        Seq::empty()
    } else {
        crlf() + header_text(hs[0]) + tail_lines(hs.drop_first())
    }
}

pub open spec fn no_cr(s: Seq<char>) -> bool {
    forall|i: int| 0 <= i < s.len() ==> s[i] != '\r'
}

/// A header that reads back as itself, up to the white space that begins its value: an
/// upper-case name of header characters, and a value without line breaks.
pub open spec fn well_formed_header(e: (Seq<char>, Seq<char>)) -> bool {
    &&& e.0.len() > 0
    &&& forall|i: int| 0 <= i < e.0.len() ==> in_class(CharClass::NameChar, #[trigger] e.0[i])
        && upper_char(e.0[i]) == e.0[i]
    &&& no_cr(e.1)
    &&& no_line_feed(e.1)
}

/// A header value without its leading white space, as a header line is read.
pub open spec fn strip_value(v: Seq<char>) -> Seq<char> {
    v.subrange(run_end(v, 0, CharClass::Space), v.len() as int)
}

/// The headers with their values' leading white space dropped.
pub open spec fn stripped(hs: HeaderSeq) -> HeaderSeq {
    hs.map_values(|e: (Seq<char>, Seq<char>)| (e.0, strip_value(e.1)))
}

/// The status line `HTTP/{version} 200 {reason}`.
pub open spec fn status_text(version: Seq<char>, reason: Seq<char>) -> Seq<char> {
    "HTTP/"@ + version + seq![' ', '2', '0', '0', ' '] + reason
}

/// The text of a response: its status line, a line per header, and a blank line.
pub open spec fn response_text(version: Seq<char>, reason: Seq<char>, hs: HeaderSeq) -> Seq<char> {
    status_text(version, reason) + crlf() + header_lines(hs) + crlf()
}

proof fn lemma_tail_lines(hs: HeaderSeq)
    ensures
        crlf() + header_lines(hs) == tail_lines(hs) + crlf(),
    decreases hs.len(),
{
    if hs.len() > 0 {
        let d = hs.drop_last();
        lemma_tail_lines(d);
        if d.len() == 0 {
            assert(tail_lines(d) == Seq::<char>::empty());
            assert(hs.drop_first().len() == 0);
            assert(tail_lines(hs.drop_first()) == Seq::<char>::empty());
            assert(hs[0] == hs.last());
            assert(header_lines(d) == Seq::<char>::empty());
            assert(crlf() + header_lines(hs) =~= tail_lines(hs) + crlf());
        } else {
            lemma_tail_lines_push(d, hs.last());
            assert(d.push(hs.last()) =~= hs);
            assert(crlf() + header_lines(hs) =~= (crlf() + header_lines(d)) + header_line(hs.last()));
            assert(tail_lines(hs) + crlf() =~= tail_lines(d) + crlf() + header_text(hs.last()) + crlf());
        }
    }
}

proof fn lemma_tail_lines_push(hs: HeaderSeq, e: (Seq<char>, Seq<char>))
    ensures
        tail_lines(hs.push(e)) == tail_lines(hs) + crlf() + header_text(e),
    decreases hs.len(),
{
    if hs.len() == 0 {
        let p = hs.push(e);
        assert(p.drop_first() =~= Seq::<(Seq<char>, Seq<char>)>::empty());
        assert(p[0] == e);
        assert(tail_lines(p) == crlf() + header_text(p[0]) + tail_lines(p.drop_first()));
        assert(tail_lines(p.drop_first()) == Seq::<char>::empty());
        assert(tail_lines(hs) == Seq::<char>::empty());
        assert(tail_lines(p) =~= tail_lines(hs) + crlf() + header_text(e));
    } else {
        lemma_tail_lines_push(hs.drop_first(), e);
        let p = hs.push(e);
        assert(p.drop_first() =~= hs.drop_first().push(e));
        assert(p[0] == hs[0]);
        assert(tail_lines(p) == crlf() + header_text(p[0]) + tail_lines(p.drop_first()));
        assert(tail_lines(hs) == crlf() + header_text(hs[0]) + tail_lines(hs.drop_first()));
        assert(tail_lines(p) =~= tail_lines(hs) + crlf() + header_text(e));
    }
}

proof fn lemma_crlf_at(t: Seq<char>, i: int, j: int)
    requires
        0 <= i <= j,
        j + 2 <= t.len(),
        t[j] == '\r' && t[j + 1] == '\n',
        forall|k: int| i <= k < j ==> t[k] != '\r',
    ensures
        crlf_from(t, i) == j,
    decreases j - i,
{
    if i < j {
        lemma_crlf_at(t, i + 1, j);
    }
}

proof fn lemma_no_crlf(t: Seq<char>, i: int)
    requires
        0 <= i <= t.len(),
        forall|k: int| i <= k < t.len() ==> t[k] != '\r',
    ensures
        crlf_from(t, i) == t.len(),
    decreases t.len() - i,
{
    if i + 2 <= t.len() {
        lemma_no_crlf(t, i + 1);
    }
}

/// Splitting a line followed by header lines gives the line, then each header's text.
proof fn lemma_lines_of_tail(t: Seq<char>, i: int, line: Seq<char>, hs: HeaderSeq)
    requires
        0 <= i <= t.len(),
        t.subrange(i, t.len() as int) == line + tail_lines(hs),
        no_cr(line),
        forall|k: int| 0 <= k < hs.len() ==> no_cr(#[trigger] header_text(hs[k])),
    ensures
        lines_from(t, i) == seq![line] + hs.map_values(|e: (Seq<char>, Seq<char>)| header_text(e)),
    decreases hs.len(),
{
    let j = i + line.len();
    assert(t.subrange(i, t.len() as int).len() == line.len() + tail_lines(hs).len());
    assert(j <= t.len());
    assert forall|k: int| i <= k < j implies t[k] != '\r' by {
        assert(t[k] == t.subrange(i, t.len() as int)[k - i]);
    }
    if hs.len() == 0 {
        assert(tail_lines(hs) == Seq::<char>::empty());
        lemma_no_crlf(t, i);
        assert(t.subrange(i, t.len() as int) =~= line);
        assert(hs.map_values(|e: (Seq<char>, Seq<char>)| header_text(e)) =~= Seq::<Seq<char>>::empty());
        assert(seq![line] + Seq::<Seq<char>>::empty() =~= seq![line]);
    } else {
        let rest = t.subrange(i, t.len() as int);
        assert(tail_lines(hs) == crlf() + header_text(hs[0]) + tail_lines(hs.drop_first()));
        assert(rest.len() >= line.len() + 2);
        assert(rest[line.len() as int] == '\r');
        assert(rest[line.len() as int + 1] == '\n');
        lemma_crlf_at(t, i, j);
        assert(t.subrange(i, j) =~= line);
        let next = header_text(hs[0]);
        assert(no_cr(next));
        let after = next + tail_lines(hs.drop_first());
        assert(rest =~= line + crlf() + after);
        assert(t.subrange(j + 2, t.len() as int).len() == after.len());
        assert forall|k: int| 0 <= k < after.len() implies #[trigger] t.subrange(j + 2, t.len() as int)[k]
            == after[k] by {
            assert(t.subrange(j + 2, t.len() as int)[k] == t[j + 2 + k]);
            assert(t[j + 2 + k] == rest[line.len() + 2 + k]);
            assert((line + crlf() + after)[line.len() + 2 + k] == after[k]);
        }
        assert(t.subrange(j + 2, t.len() as int) =~= after);
        assert forall|k: int| 0 <= k < hs.drop_first().len() implies no_cr(
            #[trigger] header_text(hs.drop_first()[k]),
        ) by {
            assert(hs.drop_first()[k] == hs[k + 1]);
        }
        lemma_lines_of_tail(t, j + 2, next, hs.drop_first());
        let f = |e: (Seq<char>, Seq<char>)| header_text(e);
        assert(hs.map_values(f) =~= seq![next] + hs.drop_first().map_values(f));
        assert(lines_from(t, i) == seq![t.subrange(i, j)] + lines_from(t, j + 2));
        assert(lines_from(t, i) =~= seq![line] + hs.map_values(f));
    }
}

} // verus!

verus! {

proof fn lemma_run_end_at(s: Seq<char>, i: int, j: int, k: CharClass)
    requires
        0 <= i <= j <= s.len(),
        forall|m: int| i <= m < j ==> in_class(k, #[trigger] s[m]),
        j == s.len() || !in_class(k, s[j]),
    ensures
        run_end(s, i, k) == j,
    decreases j - i,
{
    if i < j {
        lemma_run_end_at(s, i + 1, j, k);
    }
}

proof fn lemma_header_parts(e: (Seq<char>, Seq<char>))
    requires
        well_formed_header(e),
    ensures
        header_parts(header_text(e)) == Some((e.0, strip_value(e.1))),
        upper(e.0) == e.0,
{
    let line = header_text(e);
    let n = e.0.len() as int;
    assert(line[n] == ':');
    assert(line[n + 1] == ' ');
    lemma_run_end_at(line, 0, n, CharClass::NameChar);
    lemma_run_end_at(line, n, n, CharClass::Space);
    let r = run_end(e.1, 0, CharClass::Space);
    lemma_run_end_bounds(e.1, 0, CharClass::Space);
    let v = n + 2 + r;
    assert forall|m: int| n + 1 <= m < v implies in_class(CharClass::Space, #[trigger] line[m]) by {
        if m >= n + 2 {
            assert(line[m] == e.1[m - n - 2]);
            lemma_run_in_class(e.1, 0, CharClass::Space, m - n - 2);
        }
    }
    if r < e.1.len() {
        lemma_run_end_stop(e.1, 0, CharClass::Space);
        assert(line[v] == e.1[r]);
    }
    lemma_run_end_at(line, n + 1, v, CharClass::Space);
    assert(line.subrange(0, n) =~= e.0);
    assert(line.subrange(v, line.len() as int) =~= strip_value(e.1));
    assert(no_line_feed(line.subrange(v, line.len() as int))) by {
        assert forall|i: int| 0 <= i < line.len() - v implies line.subrange(v, line.len() as int)[i]
            != '\n' by {
            assert(line.subrange(v, line.len() as int)[i] == e.1[r + i]);
        }
    }
    assert(upper(e.0) =~= e.0);
}

proof fn lemma_run_end_bounds(s: Seq<char>, i: int, k: CharClass)
    requires
        0 <= i <= s.len(),
    ensures
        i <= run_end(s, i, k) <= s.len(),
    decreases s.len() - i,
{
    if i < s.len() && in_class(k, s[i]) {
        lemma_run_end_bounds(s, i + 1, k);
    }
}

pub open spec fn header_texts(hs: HeaderSeq) -> Seq<Seq<char>> {
    hs.map_values(|e: (Seq<char>, Seq<char>)| header_text(e))
}

proof fn lemma_headers_of_texts(hs: HeaderSeq)
    requires
        forall|k: int| 0 <= k < hs.len() ==> well_formed_header(#[trigger] hs[k]),
        headers::unique_keys(hs),
    ensures
        first_bad_line(header_texts(hs)) is None,
        headers_of(header_texts(hs)) == stripped(hs),
    decreases hs.len(),
{
    let ls = header_texts(hs);
    if hs.len() > 0 {
        let d = hs.drop_last();
        assert forall|k: int| 0 <= k < d.len() implies well_formed_header(#[trigger] d[k]) by {
            assert(d[k] == hs[k]);
        }
        assert(headers::unique_keys(d)) by {
            assert forall|a: int, b: int| 0 <= a < b < d.len() implies (#[trigger] d[a]).0 != (
            #[trigger] d[b]).0 by {
                assert(d[a] == hs[a] && d[b] == hs[b]);
            }
        }
        lemma_headers_of_texts(d);
        assert(ls.drop_last() =~= header_texts(d));
        lemma_header_parts(hs.last());
        assert(ls.last() == header_text(hs.last()));
        let sd = stripped(d);
        assert(!headers::has_key(sd, hs.last().0)) by {
            if headers::has_key(sd, hs.last().0) {
                let a = choose|a: int| 0 <= a < sd.len() && (#[trigger] sd[a]).0 == hs.last().0;
                assert(sd[a].0 == d[a].0);
                assert(hs[a] == d[a]);
                assert(hs[hs.len() - 1] == hs.last());
            }
        }
        assert(sd.push((hs.last().0, strip_value(hs.last().1))) =~= stripped(hs));
        lemma_first_bad_texts(hs);
    } else {
        assert(ls.len() == 0);
        assert(stripped(hs) =~= Seq::<(Seq<char>, Seq<char>)>::empty());
    }
}

proof fn lemma_first_bad_texts(hs: HeaderSeq)
    requires
        forall|k: int| 0 <= k < hs.len() ==> well_formed_header(#[trigger] hs[k]),
    ensures
        first_bad_line(header_texts(hs)) is None,
    decreases hs.len(),
{
    if hs.len() > 0 {
        lemma_header_parts(hs[0]);
        let r = hs.drop_first();
        assert forall|k: int| 0 <= k < r.len() implies well_formed_header(#[trigger] r[k]) by {
            assert(r[k] == hs[k + 1]);
        }
        lemma_first_bad_texts(r);
        assert(header_texts(hs).drop_first() =~= header_texts(r));
    }
}

} // verus!

verus! {

/// In the header lines, every carriage return starts a line break that a non-empty line
/// without carriage returns follows.
proof fn lemma_tail_cr(hs: HeaderSeq)
    requires
        forall|k: int| 0 <= k < hs.len() ==> well_formed_header(#[trigger] hs[k]),
    ensures
        forall|p: int| 0 <= p < tail_lines(hs).len() && #[trigger] tail_lines(hs)[p] == '\r' ==> p
            + 2 < tail_lines(hs).len() && tail_lines(hs)[p + 1] == '\n' && tail_lines(hs)[p + 2]
            != '\r',
    decreases hs.len(),
{
    if hs.len() > 0 {
        let r = hs.drop_first();
        assert forall|k: int| 0 <= k < r.len() implies well_formed_header(#[trigger] r[k]) by {
            assert(r[k] == hs[k + 1]);
        }
        lemma_tail_cr(r);
        let h = header_text(hs[0]);
        let s = tail_lines(hs);
        assert(s == crlf() + h + tail_lines(r));
        assert(well_formed_header(hs[0]));
        assert(no_cr(h)) by {
            assert forall|i: int| 0 <= i < h.len() implies h[i] != '\r' by {
                if i < hs[0].0.len() {
                    assert(h[i] == hs[0].0[i]);
                    assert(in_class(CharClass::NameChar, hs[0].0[i]));
                } else if i >= hs[0].0.len() + 2 {
                    assert(h[i] == hs[0].1[i - hs[0].0.len() - 2]);
                }
            }
        }
        assert forall|p: int| 0 <= p < s.len() && #[trigger] s[p] == '\r' implies p + 2 < s.len()
            && s[p + 1] == '\n' && s[p + 2] != '\r' by {
            let m = 2 + h.len();
            if p == 0 {
                assert(s[2] == h[0]);
            } else if p == 1 {
                assert(s[1] == '\n');
            } else if p < m {
                assert(s[p] == h[p - 2]);
            } else {
                assert(s[p] == tail_lines(r)[p - m]);
                assert(s[p + 1] == tail_lines(r)[p - m + 1]);
                assert(s[p + 2] == tail_lines(r)[p - m + 2]);
            }
        }
    }
}

proof fn lemma_blank_at(b: Seq<u8>, i: int, j: int)
    requires
        0 <= i <= j,
        j + 4 <= b.len(),
        b[j] == 13 && b[j + 1] == 10 && b[j + 2] == 13 && b[j + 3] == 10,
        forall|k: int| i <= k < j ==> !(#[trigger] b[k] == 13 && b[k + 2] == 13),
    ensures
        blank_from(b, i) == j,
    decreases j - i,
{
    if i < j {
        lemma_blank_at(b, i + 1, j);
    }
}

proof fn lemma_text_shape(version: Seq<char>, reason: Seq<char>, hs: HeaderSeq)
    ensures
        response_text(version, reason, hs) == (status_text(version, reason) + tail_lines(hs)) + crlf()
            + crlf(),
{
    lemma_tail_lines(hs);
    let st = status_text(version, reason);
    let hl = header_lines(hs);
    assert(st + crlf() + hl + crlf() =~= st + (crlf() + hl) + crlf());
    assert(st + (tail_lines(hs) + crlf()) + crlf() =~= (st + tail_lines(hs)) + crlf() + crlf());
}

proof fn lemma_status_no_cr(version: Seq<char>, reason: Seq<char>)
    requires
        forall|i: int| 0 <= i < version.len() ==> in_class(CharClass::VersionChar, #[trigger] version[i]),
        no_cr(reason),
    ensures
        no_cr(status_text(version, reason)),
{
    reveal_strlit("HTTP/");
    let st = status_text(version, reason);
    assert forall|i: int| 0 <= i < st.len() implies st[i] != '\r' by {
        if 5 <= i < 5 + version.len() {
            assert(st[i] == version[i - 5]);
            assert(in_class(CharClass::VersionChar, version[i - 5]));
        } else if i >= 5 + version.len() + 5 {
            assert(st[i] == reason[i - 10 - version.len()]);
        }
    }
}

proof fn lemma_header_text_no_cr(hs: HeaderSeq)
    requires
        forall|k: int| 0 <= k < hs.len() ==> well_formed_header(#[trigger] hs[k]),
    ensures
        forall|k: int| 0 <= k < hs.len() ==> no_cr(#[trigger] header_text(hs[k])),
{
    assert forall|k: int| 0 <= k < hs.len() implies no_cr(#[trigger] header_text(hs[k])) by {
        let h = header_text(hs[k]);
        assert(well_formed_header(hs[k]));
        assert forall|i: int| 0 <= i < h.len() implies h[i] != '\r' by {
            if i < hs[k].0.len() {
                assert(h[i] == hs[k].0[i]);
                assert(in_class(CharClass::NameChar, hs[k].0[i]));
            } else if i >= hs[k].0.len() + 2 {
                assert(h[i] == hs[k].1[i - hs[k].0.len() - 2]);
            }
        }
    }
}

/// The first blank line of the encoded text is the one after the header lines, and the bytes
/// before it are the encoding of the status line and header lines.
proof fn lemma_head_of_encoding(st: Seq<char>, hs: HeaderSeq)
    requires
        no_cr(st),
        forall|k: int| 0 <= k < hs.len() ==> well_formed_header(#[trigger] hs[k]),
    ensures
        ({
            let head = st + tail_lines(hs);
            let b = vstd::utf8::encode_utf8(head + crlf() + crlf());
            &&& blank_from(b, 0) == vstd::utf8::encode_utf8(head).len()
            &&& b.len() == vstd::utf8::encode_utf8(head).len() + 4
            &&& head_bytes(b) == vstd::utf8::encode_utf8(head)
        }),
{
    let head = st + tail_lines(hs);
    let blank = crlf() + crlf();
    let t = head + crlf() + crlf();
    assert(t =~= head + blank);
    lemma_encode_concat(head, blank);
    let eh = vstd::utf8::encode_utf8(head);
    let eb = vstd::utf8::encode_utf8(blank);
    lemma_scalar_cr('\r');
    lemma_scalar_cr('\n');
    assert(blank =~= seq!['\r', '\n', '\r', '\n']);
    reveal_with_fuel(vstd::utf8::encode_utf8, 5);
    assert(blank.drop_first() =~= seq!['\n', '\r', '\n']);
    assert(blank.drop_first().drop_first() =~= seq!['\r', '\n']);
    assert(blank.drop_first().drop_first().drop_first() =~= seq!['\n']);
    assert(blank.drop_first().drop_first().drop_first().drop_first() =~= Seq::<char>::empty());
    assert(eb =~= seq![13u8, 10u8, 13u8, 10u8]);
    let b = vstd::utf8::encode_utf8(t);
    assert(b == eh + eb);
    lemma_tail_cr(hs);
    assert(cr_spaced(head)) by {
        assert forall|i: int| 0 <= i < head.len() && #[trigger] head[i] == '\r' implies i + 2
            < head.len() && head[i + 1] == '\n' && head[i + 2] != '\r' by {
            if i < st.len() {
                assert(head[i] == st[i]);
            } else {
                let j = i - st.len();
                assert(head[i] == tail_lines(hs)[j]);
                assert(head[i + 1] == tail_lines(hs)[j + 1]);
                assert(head[i + 2] == tail_lines(hs)[j + 2]);
            }
        }
    }
    lemma_no_blank_in_encoding(head, eb);
    let n = eh.len() as int;
    assert forall|k: int| 0 <= k < n implies !(#[trigger] b[k] == 13 && b[k + 2] == 13) by {
        assert(k + 2 < (eh + eb).len());
    }
    lemma_blank_at(b, 0, n);
    assert(head_bytes(b) =~= eh);
}

proof fn lemma_status_parts(version: Seq<char>, reason: Seq<char>)
    requires
        version.len() > 0,
        http_version(version),
        forall|i: int| 0 <= i < version.len() ==> in_class(CharClass::VersionChar, #[trigger] version[i]),
        no_line_feed(reason),
    ensures
        status_parts(status_text(version, reason)) == Some((version, seq!['2', '0', '0'], reason)),
        digits_value(seq!['2', '0', '0']) == 200,
{
    reveal_strlit("HTTP/");
    let st = status_text(version, reason);
    let v: int = 5 + version.len() as int;
    assert forall|i: int| 5 <= i < v implies in_class(CharClass::VersionChar, #[trigger] st[i]) by {
        assert(st[i] == version[i - 5]);
    }
    lemma_run_end_at(st, 5, v, CharClass::VersionChar);
    assert(st[v] == ' ');
    assert(st[v + 1] == '2' && st[v + 2] == '0' && st[v + 3] == '0' && st[v + 4] == ' ');
    lemma_run_end_at(st, v + 1, v + 4, CharClass::Digit);
    assert(st.subrange(0, 5) =~= "HTTP/"@);
    assert(st.subrange(5, v) =~= version);
    assert(st.subrange(v + 5, st.len() as int) =~= reason);
    assert(st.subrange(v + 1, v + 4) =~= seq!['2', '0', '0']);
    let code = seq!['2', '0', '0'];
    assert(code.drop_last() =~= seq!['2', '0']);
    assert(code.drop_last().drop_last() =~= seq!['2']);
    assert(code.drop_last().drop_last().drop_last() =~= Seq::<char>::empty());
    reveal_with_fuel(digits_value, 4);
}

/// A well-formed response parses back into its status and headers: encoding its text and
/// parsing the bytes gives the version, reason and the headers written, values without their
/// leading white space; so writing the parsed headers again gives the same header lines up to
/// the white space after each `:`.
pub proof fn lemma_response_round_trip(version: Seq<char>, reason: Seq<char>, hs: HeaderSeq)
    requires
        version.len() > 0,
        http_version(version),
        forall|i: int| 0 <= i < version.len() ==> in_class(CharClass::VersionChar, #[trigger] version[i]),
        no_cr(reason),
        no_line_feed(reason),
        forall|k: int| 0 <= k < hs.len() ==> well_formed_header(#[trigger] hs[k]),
        headers::unique_keys(hs),
    ensures
        response_of(vstd::utf8::encode_utf8(response_text(version, reason, hs))) == Ok::<ResponseView, Fault>(
            ResponseView { version, message: reason, headers: stripped(hs), body: Seq::empty() },
        ),
        header_lines(response_of(vstd::utf8::encode_utf8(response_text(version, reason, hs)))->Ok_0.headers)
            == header_lines(stripped(hs)),
{
    broadcast use vstd::utf8::encode_utf8_decode_utf8, vstd::utf8::encode_utf8_valid_utf8;

    let st = status_text(version, reason);
    let head = st + tail_lines(hs);
    lemma_text_shape(version, reason, hs);
    lemma_status_no_cr(version, reason);
    lemma_head_of_encoding(st, hs);
    let b = vstd::utf8::encode_utf8(response_text(version, reason, hs));
    assert(decode_utf8(head_bytes(b)) == head);
    assert(valid_utf8(head_bytes(b)));
    lemma_header_text_no_cr(hs);
    assert(head.subrange(0, head.len() as int) =~= st + tail_lines(hs));
    lemma_lines_of_tail(head, 0, st, hs);
    let lines = lines_from(head, 0);
    assert(lines[0] == st);
    assert(lines.drop_first() =~= header_texts(hs));
    lemma_status_parts(version, reason);
    lemma_headers_of_texts(hs);
    assert(body_bytes(b) =~= Seq::<u8>::empty());
}

} // verus!

verus! {

/// A character's encoding holds a carriage-return byte only when the character is one; a
/// carriage return and a line feed are one byte each.
proof fn lemma_scalar_cr(c: char)
    ensures
        vstd::utf8::encode_scalar(c as u32).len() >= 1,
        forall|i: int| 0 <= i < vstd::utf8::encode_scalar(c as u32).len() ==> (
        #[trigger] vstd::utf8::encode_scalar(c as u32)[i] == 13u8 ==> c == '\r'),
        c == '\r' ==> vstd::utf8::encode_scalar(c as u32) == seq![13u8],
        c == '\n' ==> vstd::utf8::encode_scalar(c as u32) == seq![10u8],
{
    let v = c as u32;
    let e = vstd::utf8::encode_scalar(v);
    if v <= 0x7F {
        assert(((v & 0x7F) as u8 == 13u8) ==> v == 13u32) by (bit_vector)
            requires v <= 0x7F;
        assert(v == 13u32 ==> (v & 0x7F) as u8 == 13u8) by (bit_vector);
        assert(v == 10u32 ==> (v & 0x7F) as u8 == 10u8) by (bit_vector);
        vstd::utf8::char_u32_cast(c, v);
        if v == 13u32 {
            assert(c == ('\r' as u32) as char);
        }
        assert(c == '\r' ==> v == 13u32);
        assert(c == '\n' ==> v == 10u32);
    } else {
        assert(0xC0u8 | (((v >> 6) & 0x1F) as u8) != 13u8) by (bit_vector);
        assert(0xE0u8 | (((v >> 12) & 0x0F) as u8) != 13u8) by (bit_vector);
        assert(0xF0u8 | (((v >> 18) & 0x7) as u8) != 13u8) by (bit_vector);
        assert(0x80u8 | ((v & 0x3F) as u8) != 13u8) by (bit_vector);
        assert(0x80u8 | (((v >> 6) & 0x3F) as u8) != 13u8) by (bit_vector);
        assert(0x80u8 | (((v >> 12) & 0x3F) as u8) != 13u8) by (bit_vector);
        assert(c != '\r' && c != '\n');
        vstd::utf8::char_is_scalar(c);
    }
}

/// Every carriage return is followed by a line feed and then by a character that is not a
/// carriage return.
pub open spec fn cr_spaced(s: Seq<char>) -> bool {
    forall|i: int| 0 <= i < s.len() && #[trigger] s[i] == '\r' ==> i + 2 < s.len() && s[i + 1]
        == '\n' && s[i + 2] != '\r'
}

proof fn lemma_encode_concat(a: Seq<char>, b: Seq<char>)
    ensures
        vstd::utf8::encode_utf8(a + b) == vstd::utf8::encode_utf8(a) + vstd::utf8::encode_utf8(b),
    decreases a.len(),
{
    if a.len() > 0 {
        lemma_encode_concat(a.drop_first(), b);
        assert((a + b).drop_first() =~= a.drop_first() + b);
        assert((a + b)[0] == a[0]);
        assert(vstd::utf8::encode_utf8(a + b) =~= vstd::utf8::encode_utf8(a) + vstd::utf8::encode_utf8(b));
    } else {
        assert(a + b =~= b);
    }
}

/// In the encoding of such a text followed by anything, no carriage-return byte inside the
/// text's own bytes has another two places on.
proof fn lemma_no_blank_in_encoding(s: Seq<char>, rest: Seq<u8>)
    requires
        cr_spaced(s),
    ensures
        forall|k: int| 0 <= k < vstd::utf8::encode_utf8(s).len() && k + 2 < (vstd::utf8::encode_utf8(s)
            + rest).len() ==> !(#[trigger] (vstd::utf8::encode_utf8(s) + rest)[k] == 13u8 && (
        vstd::utf8::encode_utf8(s) + rest)[k + 2] == 13u8),
    decreases s.len(),
{
    let es = vstd::utf8::encode_utf8(s);
    if s.len() > 0 {
        let t = s.drop_first();
        assert(cr_spaced(t)) by {
            assert forall|i: int| 0 <= i < t.len() && #[trigger] t[i] == '\r' implies i + 2 < t.len()
                && t[i + 1] == '\n' && t[i + 2] != '\r' by {
                assert(s[i + 1] == t[i]);
            }
        }
        lemma_no_blank_in_encoding(t, rest);
        let h = vstd::utf8::encode_scalar(s[0] as u32);
        let et = vstd::utf8::encode_utf8(t);
        assert(es == h + et);
        lemma_scalar_cr(s[0]);
        assert forall|k: int| 0 <= k < es.len() && k + 2 < (es + rest).len() implies !(#[trigger] (es
            + rest)[k] == 13u8 && (es + rest)[k + 2] == 13u8) by {
            assert(es + rest =~= h + (et + rest));
            if k < h.len() {
                assert((es + rest)[k] == h[k]);
                if h[k] == 13u8 {
                    assert(s[0] == '\r');
                    assert(s[1] == '\n' && s[2] != '\r');
                    lemma_scalar_cr(s[1]);
                    lemma_scalar_cr(s[2]);
                    let t2 = t.drop_first();
                    assert(et == vstd::utf8::encode_scalar(t[0] as u32) + vstd::utf8::encode_utf8(t2));
                    assert(t2.len() > 0);
                    let et2 = vstd::utf8::encode_utf8(t2);
                    assert(et2 == vstd::utf8::encode_scalar(t2[0] as u32) + vstd::utf8::encode_utf8(t2.drop_first()));
                    assert(t[0] == s[1] && t2[0] == s[2]);
                    assert((es + rest)[2] == vstd::utf8::encode_scalar(s[2] as u32)[0]);
                }
            } else {
                assert((es + rest)[k] == (et + rest)[k - h.len()]);
                assert((es + rest)[k + 2] == (et + rest)[k - h.len() + 2]);
            }
        }
    }
}

} // verus!
