//! Byte-level rendering of HTTP messages: the block response Minos sends,
//! the request it forwards upstream, and the sample it logs.

use vstd::prelude::*;
use vstd::utf8::encode_utf8;
use crate::decimal::dec_digits;
use crate::packet::{Packet, ParsedHttp, RequestView, pairs_view};
use crate::text::{extend_bytes, extend_str, str_eq_ascii_ci, str_eq_ignore_ascii_case};
use crate::verdict::BlockResponse;

verus! {

/// The header pairs `hs`, each written `name` `sep` `value` `eol`.
pub open spec fn header_lines(hs: Seq<(Seq<char>, Seq<char>)>, sep: Seq<u8>, eol: Seq<u8>) -> Seq<u8>
    decreases hs.len(),
{
    if hs.len() == 0 {
        Seq::empty()
    } else {
        header_lines(hs.drop_last(), sep, eol) + encode_utf8(hs.last().0) + sep + encode_utf8(
            hs.last().1,
        ) + eol
    }
}

/// Append each header as `name` `sep` `value` `eol`.
fn push_header_lines(out: &mut Vec<u8>, hs: &Vec<(String, String)>, sep: &str, eol: &str)
    ensures
        final(out)@ == old(out)@ + header_lines(pairs_view(hs@), encode_utf8(sep@), encode_utf8(eol@)),
{
    let ghost start = out@;
    let ghost hv = pairs_view(hs@);
    let mut i: usize = 0;
    while i < hs.len()
        invariant
            i <= hs@.len(),
            hv == pairs_view(hs@),
            out@ == start + header_lines(hv.take(i as int), encode_utf8(sep@), encode_utf8(eol@)),
        decreases hs.len() - i,
    {
        extend_str(out, hs[i].0.as_str());
        extend_str(out, sep);
        extend_str(out, hs[i].1.as_str());
        extend_str(out, eol);
        proof {
            assert(hv.take(i + 1).drop_last() =~= hv.take(i as int));
            assert(hv.take(i + 1).last() == (hs@[i as int].0@, hs@[i as int].1@));
            assert(out@ =~= start + header_lines(hv.take(i + 1), encode_utf8(sep@), encode_utf8(eol@)));
        }
        i += 1;
    }
    assert(hv.take(hs@.len() as int) =~= hv);
}

/// The reason phrase Minos writes for a status code.
pub open spec fn reason_text(status: u16) -> Seq<char> {
    if status == 200 {
        "OK"@
    } else if status == 204 {
        "No Content"@
    } else if status == 301 {
        "Moved Permanently"@
    } else if status == 302 {
        "Found"@
    } else if status == 400 {
        "Bad Request"@
    } else if status == 401 {
        "Unauthorized"@
    } else if status == 404 {
        "Not Found"@
    } else if status == 418 {
        "I'm a teapot"@
    } else if status == 500 {
        "Internal Server Error"@
    } else if status == 502 {
        "Bad Gateway"@
    } else if status == 503 {
        "Service Unavailable"@
    } else {
        "Forbidden"@
    }
}

/// The reason phrase for a status code (`"Forbidden"` for unlisted codes).
pub fn http_reason(status: u16) -> (r: &'static str)
    ensures
        r@ == reason_text(status),
{
    match status {
        200 => "OK",
        204 => "No Content",
        301 => "Moved Permanently",
        302 => "Found",
        400 => "Bad Request",
        401 => "Unauthorized",
        404 => "Not Found",
        418 => "I'm a teapot",
        500 => "Internal Server Error",
        502 => "Bad Gateway",
        503 => "Service Unavailable",
        _ => "Forbidden",
    }
}

/// The bytes of an HTTP/1.1 response with the given status, body and extra
/// headers: status line, `Content-Length`, `Connection: close`, the extra
/// headers, a blank line, then the body.
pub open spec fn response_bytes(status: u16, body: Seq<u8>, hs: Seq<(Seq<char>, Seq<char>)>) -> Seq<u8> {
    encode_utf8("HTTP/1.1 "@ + dec_digits(status as nat) + " "@ + reason_text(status) + "\r\n"@)
        + encode_utf8("Content-Length: "@ + dec_digits(body.len()) + "\r\n"@) + encode_utf8(
        "Connection: close\r\n"@,
    ) + header_lines(hs, encode_utf8(": "@), encode_utf8("\r\n"@)) + encode_utf8("\r\n"@) + body
}

/// The bytes Minos writes when it blocks an HTTP request. `Close` falls back
/// to the default 403 with no body.
pub open spec fn block_response_spec(resp: BlockResponse) -> Seq<u8> {
    match resp {
        BlockResponse::HttpStatus { status, body, headers } => response_bytes(
            status,
            body@,
            pairs_view(headers@),
        ),
        BlockResponse::Close => response_bytes(403, Seq::empty(), Seq::empty()),
    }
}

/// Render the block response for an HTTP client.
pub fn block_response_bytes(response: &BlockResponse) -> (r: Vec<u8>)
    ensures
        r@ == block_response_spec(*response),
{
    let empty_body: Vec<u8> = Vec::new();
    let empty_headers: Vec<(String, String)> = Vec::new();
    let (status, body, headers): (u16, &Vec<u8>, &Vec<(String, String)>) = match response {
        BlockResponse::HttpStatus { status, body, headers } => (*status, body, headers),
        BlockResponse::Close => (403u16, &empty_body, &empty_headers),
    };
    let mut out: Vec<u8> = Vec::new();
    let mut line = String::new();
    line.append("HTTP/1.1 ");
    crate::decimal::push_decimal(&mut line, status as u64);
    line.append(" ");
    line.append(http_reason(status));
    line.append("\r\n");
    extend_str(&mut out, line.as_str());
    let mut cl = String::new();
    cl.append("Content-Length: ");
    crate::decimal::push_decimal(&mut cl, body.len() as u64);
    cl.append("\r\n");
    extend_str(&mut out, cl.as_str());
    extend_str(&mut out, "Connection: close\r\n");
    push_header_lines(&mut out, headers, ": ", "\r\n");
    extend_str(&mut out, "\r\n");
    extend_bytes(&mut out, body.as_slice());
    proof {
        assert(line@ =~= "HTTP/1.1 "@ + dec_digits(status as nat) + " "@ + reason_text(status) + "\r\n"@);
        assert(cl@ =~= "Content-Length: "@ + dec_digits(body@.len()) + "\r\n"@);
        assert(pairs_view(empty_headers@) =~= Seq::<(Seq<char>, Seq<char>)>::empty());
        assert(out@ =~= block_response_spec(*response));
    }
    out
}

/// Whether any header is named `Connection` (ASCII case-insensitively).
pub open spec fn has_connection_header(hs: Seq<(Seq<char>, Seq<char>)>) -> bool {
    exists|i: int| 0 <= i < hs.len() && str_eq_ignore_ascii_case(hs[i].0, "connection"@)
}

/// The bytes Minos sends upstream for a request: the original request line
/// (as HTTP/1.1) and headers, `Connection: close` if the client sent no
/// `Connection` header, a blank line, then the body.
pub open spec fn serialized_request(req: RequestView) -> Seq<u8> {
    encode_utf8(req.method) + encode_utf8(" "@) + encode_utf8(req.path) + encode_utf8(
        " HTTP/1.1\r\n"@,
    ) + header_lines(req.headers, encode_utf8(": "@), encode_utf8("\r\n"@)) + (if has_connection_header(
        req.headers,
    ) {
        Seq::empty()
    } else {
        encode_utf8("Connection: close\r\n"@)
    }) + encode_utf8("\r\n"@) + req.body
}

/// Build the on-wire form of a parsed request for the upstream.
pub fn serialize_request(request: &ParsedHttp) -> (r: Vec<u8>)
    ensures
        r@ == serialized_request(request@),
{
    let mut buf: Vec<u8> = Vec::new();
    extend_str(&mut buf, request.method.as_str());
    extend_str(&mut buf, " ");
    extend_str(&mut buf, request.path.as_str());
    extend_str(&mut buf, " HTTP/1.1\r\n");
    push_header_lines(&mut buf, &request.headers, ": ", "\r\n");
    let ghost hv = pairs_view(request.headers@);
    let mut saw_connection = false;
    let mut i: usize = 0;
    while i < request.headers.len()
        invariant
            i <= request.headers@.len(),
            hv == pairs_view(request.headers@),
            saw_connection == exists|k: int| 0 <= k < i && str_eq_ignore_ascii_case(hv[k].0, "connection"@),
        decreases request.headers.len() - i,
    {
        if str_eq_ascii_ci(request.headers[i].0.as_str(), "connection") {
            saw_connection = true;
        }
        assert(hv[i as int].0 == request.headers@[i as int].0@);
        i += 1;
    }
    assert(saw_connection == has_connection_header(hv));
    if !saw_connection {
        extend_str(&mut buf, "Connection: close\r\n");
    }
    extend_str(&mut buf, "\r\n");
    extend_bytes(&mut buf, request.body.as_slice());
    assert(buf@ =~= serialized_request(request@));
    buf
}

/// Default cap on a log sample, in bytes.
pub const DEFAULT_SAMPLE_CAP: usize = 1024;

/// Default sample cap (1024 bytes).
pub fn default_sample_cap() -> (r: usize)
    ensures
        r == 1024,
{
    DEFAULT_SAMPLE_CAP
}

/// The sample text of an HTTP request: request line, one `name: value` line
/// per header, a blank line, then the body.
pub open spec fn http_sample_text(req: RequestView) -> Seq<u8> {
    encode_utf8(req.method) + encode_utf8(" "@) + encode_utf8(req.path) + encode_utf8("\n"@)
        + header_lines(req.headers, encode_utf8(": "@), encode_utf8("\n"@)) + encode_utf8("\n"@)
        + req.body
}

/// At most the first `cap` bytes of `s`.
pub open spec fn capped(s: Seq<u8>, cap: nat) -> Seq<u8> {
    if s.len() <= cap {
        s
    } else {
        s.take(cap as int)
    }
}

/// The sample logged for a packet: its bytes (raw) or its sample text
/// (HTTP), cut to `cap` bytes.
pub open spec fn sample_spec(packet: Packet, cap: nat) -> Seq<u8> {
    match packet {
        Packet::Raw { bytes, .. } => capped(bytes@, cap),
        Packet::Http { req, .. } => capped(http_sample_text(req@), cap),
    }
}

/// Append `s`, keeping the whole at most `cap` bytes.
fn push_capped(out: &mut Vec<u8>, s: &[u8], cap: usize, Ghost(whole): Ghost<Seq<u8>>)
    requires
        old(out)@ == capped(whole, cap as nat),
    ensures
        final(out)@ == capped(whole + s@, cap as nat),
{
    let mut i: usize = 0;
    while i < s.len() && out.len() < cap
        invariant
            i <= s@.len(),
            out@ == capped(whole + s@.take(i as int), cap as nat),
        decreases s.len() - i,
    {
        out.push(s[i]);
        proof {
            let w = whole + s@.take(i as int);
            let w2 = whole + s@.take(i + 1);
            assert(w2 =~= w.push(s@[i as int]));
            assert(w.len() < cap);
            assert(out@ =~= capped(w2, cap as nat));
        }
        i += 1;
    }
    proof {
        let w = whole + s@.take(i as int);
        if i < s@.len() {
            assert(w.len() >= cap);
            assert(capped(whole + s@, cap as nat) =~= capped(w, cap as nat));
        } else {
            assert(s@.take(i as int) =~= s@);
        }
    }
}

/// The bytes logged for a packet, capped at `cap`.
pub fn sample_from_packet(packet: &Packet<'_>, cap: usize) -> (r: Vec<u8>)
    ensures
        r@ == sample_spec(*packet, cap as nat),
        r@.len() <= cap,
{
    let mut out: Vec<u8> = Vec::new();
    match packet {
        Packet::Raw { bytes, .. } => {
            push_capped(&mut out, bytes, cap, Ghost(Seq::empty()));
            assert(Seq::<u8>::empty() + bytes@ =~= bytes@);
        },
        Packet::Http { req, .. } => {
            let ghost mut w: Seq<u8> = Seq::empty();
            push_capped(&mut out, req.method.as_str().as_bytes(), cap, Ghost(w));
            proof { w = w + encode_utf8(req.method@); }
            push_capped(&mut out, " ".as_bytes(), cap, Ghost(w));
            proof { w = w + encode_utf8(" "@); }
            push_capped(&mut out, req.path.as_str().as_bytes(), cap, Ghost(w));
            proof { w = w + encode_utf8(req.path@); }
            push_capped(&mut out, "\n".as_bytes(), cap, Ghost(w));
            proof { w = w + encode_utf8("\n"@); }
            let mut lines: Vec<u8> = Vec::new();
            push_header_lines(&mut lines, &req.headers, ": ", "\n");
            push_capped(&mut out, lines.as_slice(), cap, Ghost(w));
            proof { w = w + lines@; }
            push_capped(&mut out, "\n".as_bytes(), cap, Ghost(w));
            proof { w = w + encode_utf8("\n"@); }
            push_capped(&mut out, req.body.as_slice(), cap, Ghost(w));
            proof {
                w = w + req.body@;
                assert(w =~= http_sample_text(req@));
            }
        },
    }
    out
}

/// The header block of `hs.push(h)` is that of `hs` followed by `h`'s line.
proof fn lemma_header_lines_push(
    hs: Seq<(Seq<char>, Seq<char>)>,
    h: (Seq<char>, Seq<char>),
    sep: Seq<u8>,
    eol: Seq<u8>,
)
    ensures
        header_lines(hs.push(h), sep, eol) == header_lines(hs, sep, eol) + encode_utf8(h.0) + sep
            + encode_utf8(h.1) + eol,
{
    assert(hs.push(h).drop_last() =~= hs);
    assert(hs.push(h).last() == h);
}

/// A block response writes one `name: value` line for every extra header,
/// in order, just before the blank line that ends the head: adding a header
/// to the list inserts exactly its line there and changes nothing else.
#[verifier::rlimit(40)]
pub proof fn law_block_response_writes_every_header(
    status: u16,
    body: Seq<u8>,
    hs: Seq<(Seq<char>, Seq<char>)>,
    h: (Seq<char>, Seq<char>),
)
    ensures
        ({
            let before = response_bytes(status, body, hs);
            let tail = encode_utf8("\r\n"@) + body;
            let n = before.len() - tail.len();
            &&& before.len() >= tail.len()
            &&& before.subrange(n, before.len() as int) == tail
            &&& response_bytes(status, body, hs.push(h)) == before.subrange(0, n) + encode_utf8(h.0)
                + encode_utf8(": "@) + encode_utf8(h.1) + encode_utf8("\r\n"@) + tail
        }),
{
    let sep = encode_utf8(": "@);
    let eol = encode_utf8("\r\n"@);
    lemma_header_lines_push(hs, h, sep, eol);
    let pre = encode_utf8("HTTP/1.1 "@ + dec_digits(status as nat) + " "@ + reason_text(status) + "\r\n"@)
        + encode_utf8("Content-Length: "@ + dec_digits(body.len()) + "\r\n"@) + encode_utf8(
        "Connection: close\r\n"@,
    ) + header_lines(hs, sep, eol);
    let tail = eol + body;
    let before = response_bytes(status, body, hs);
    assert(before =~= pre + tail);
    assert(before.subrange(0, pre.len() as int) =~= pre);
    assert(before.subrange(pre.len() as int, before.len() as int) =~= tail);
    assert(response_bytes(status, body, hs.push(h)) =~= pre + encode_utf8(h.0) + sep + encode_utf8(
        h.1,
    ) + eol + tail);
}

/// Adding a header not named `Connection` does not change whether a
/// `Connection` header is present.
proof fn lemma_connection_header_push(hs: Seq<(Seq<char>, Seq<char>)>, h: (Seq<char>, Seq<char>))
    requires
        !str_eq_ignore_ascii_case(h.0, "connection"@),
    ensures
        has_connection_header(hs.push(h)) == has_connection_header(hs),
{
    let hs2 = hs.push(h);
    if has_connection_header(hs2) {
        let i = choose|i: int| 0 <= i < hs2.len() && str_eq_ignore_ascii_case(hs2[i].0, "connection"@);
        if i == hs.len() {
            assert(hs2[i] == h);
        }
        assert(hs2[i] == hs[i]);
    }
    if has_connection_header(hs) {
        let i = choose|i: int| 0 <= i < hs.len() && str_eq_ignore_ascii_case(hs[i].0, "connection"@);
        assert(hs2[i] == hs[i]);
    }
}

/// `serialized_request` after a header is added, in terms of the request
/// before it.
#[verifier::rlimit(40)]
proof fn lemma_serialized_push(req: RequestView, h: (Seq<char>, Seq<char>))
    requires
        !str_eq_ignore_ascii_case(h.0, "connection"@),
    ensures
        ({
            let before = serialized_request(req);
            let conn = if has_connection_header(req.headers) {
                Seq::<u8>::empty()
            } else {
                encode_utf8("Connection: close\r\n"@)
            };
            let tail = conn + encode_utf8("\r\n"@) + req.body;
            let n = before.len() - tail.len();
            &&& before.len() >= tail.len()
            &&& before.subrange(n, before.len() as int) == tail
            &&& serialized_request(RequestView { headers: req.headers.push(h), ..req })
                == before.subrange(0, n) + encode_utf8(h.0) + encode_utf8(": "@) + encode_utf8(h.1)
                + encode_utf8("\r\n"@) + tail
        }),
{
    let sep = encode_utf8(": "@);
    let eol = encode_utf8("\r\n"@);
    let hs = req.headers;
    lemma_header_lines_push(hs, h, sep, eol);
    lemma_connection_header_push(hs, h);
    let req2 = RequestView { headers: hs.push(h), ..req };
    let conn = if has_connection_header(hs) {
        Seq::<u8>::empty()
    } else {
        encode_utf8("Connection: close\r\n"@)
    };
    let pre = encode_utf8(req.method) + encode_utf8(" "@) + encode_utf8(req.path) + encode_utf8(
        " HTTP/1.1\r\n"@,
    ) + header_lines(hs, sep, eol);
    let tail = conn + eol + req.body;
    let before = serialized_request(req);
    assert(before =~= pre + tail);
    assert(before.subrange(0, pre.len() as int) =~= pre);
    assert(before.subrange(pre.len() as int, before.len() as int) =~= tail);
    assert(serialized_request(req2) =~= pre + encode_utf8(h.0) + sep + encode_utf8(h.1) + eol + tail);
}

/// The request sent upstream repeats every header of the client's request,
/// in order: adding a header not named `Connection` to the request inserts
/// exactly its `name: value` line at the end of the header lines (before
/// the `Connection: close` Minos adds when no header is named `Connection`)
/// and changes nothing else.
pub proof fn law_forwarded_request_writes_every_header(req: RequestView, h: (Seq<char>, Seq<char>))
    requires
        !str_eq_ignore_ascii_case(h.0, "connection"@),
    ensures
        ({
            let before = serialized_request(req);
            let conn = if exists|i: int|
                0 <= i < req.headers.len() && str_eq_ignore_ascii_case(
                    #[trigger] req.headers[i].0,
                    "connection"@,
                ) {
                Seq::<u8>::empty()
            } else {
                encode_utf8("Connection: close\r\n"@)
            };
            let tail = conn + encode_utf8("\r\n"@) + req.body;
            let n = before.len() - tail.len();
            &&& before.len() >= tail.len()
            &&& before.subrange(n, before.len() as int) == tail
            &&& serialized_request(RequestView { headers: req.headers.push(h), ..req })
                == before.subrange(0, n) + encode_utf8(h.0) + encode_utf8(": "@) + encode_utf8(h.1)
                + encode_utf8("\r\n"@) + tail
        }),
{
    lemma_serialized_push(req, h);
}

/// The sample text of an HTTP request lists every header, in order: adding
/// a header to the request inserts exactly its `name: value` line before the
/// blank line that precedes the body, and changes nothing else.
#[verifier::rlimit(40)]
pub proof fn law_sample_text_lists_every_header(req: RequestView, h: (Seq<char>, Seq<char>))
    ensures
        ({
            let before = http_sample_text(req);
            let tail = encode_utf8("\n"@) + req.body;
            let n = before.len() - tail.len();
            &&& before.len() >= tail.len()
            &&& before.subrange(n, before.len() as int) == tail
            &&& http_sample_text(RequestView { headers: req.headers.push(h), ..req })
                == before.subrange(0, n) + encode_utf8(h.0) + encode_utf8(": "@) + encode_utf8(h.1)
                + encode_utf8("\n"@) + tail
        }),
{
    let sep = encode_utf8(": "@);
    let eol = encode_utf8("\n"@);
    let hs = req.headers;
    lemma_header_lines_push(hs, h, sep, eol);
    let pre = encode_utf8(req.method) + encode_utf8(" "@) + encode_utf8(req.path) + encode_utf8("\n"@)
        + header_lines(hs, sep, eol);
    let tail = eol + req.body;
    let before = http_sample_text(req);
    assert(before =~= pre + tail);
    assert(before.subrange(0, pre.len() as int) =~= pre);
    assert(before.subrange(pre.len() as int, before.len() as int) =~= tail);
    assert(http_sample_text(RequestView { headers: hs.push(h), ..req }) =~= pre + encode_utf8(h.0) + sep
        + encode_utf8(h.1) + eol + tail);
}

} // verus!
