//! Reading one HTTP/1.1 request off a client connection.
//!
//! The reader is a state machine: the connection handler reads bytes and
//! hands each chunk to [`RequestReader::feed`] (or reports end of stream with
//! [`RequestReader::finish`]); the reader says whether it needs more bytes or
//! is done, with the parsed request or the reason it was rejected.
//!
//! * Headers are read until the head is complete or exceeds
//!   [`MAX_HEADER_BYTES`].
//! * The body is read up to the declared `Content-Length`; a `Content-Length`
//!   above `max_body_bytes` is rejected before any body byte is used, and so
//!   are body bytes that arrive with the head when no `Content-Length` is
//!   declared.
//! * `Transfer-Encoding` is rejected: decoding chunked bodies is out of scope
//!   and sliding past it would let bytes through uninspected.

use vstd::prelude::*;
use vstd::utf8::{valid_utf8, decode_utf8};
use crate::decimal::{parse_usize, parse_usize_spec};
use crate::errors::ProxyError;
use crate::packet::{ParsedHttp, RequestView, pairs_view};
use crate::text::{
    chars_of, concat_str, extend_bytes, str_eq_ascii_ci, str_eq_ignore_ascii_case, string_of,
    trim_chars, trim_spec,
};

verus! {

/// Largest request head (request line plus headers) accepted, in bytes.
pub const MAX_HEADER_BYTES: usize = 16384;

/// Most headers accepted in one request.
pub const MAX_HEADERS: usize = 64;

/// Size of one read from the client.
pub const READ_CHUNK: usize = 4096;

/// What the HTTP head parser reports for a buffer.
pub enum HeadParse {
    /// The head is complete and ends at byte `len`.
    Complete {
        len: usize,
        method: Option<String>,
        path: Option<String>,
        headers: Vec<(String, Vec<u8>)>,
    },
    /// More bytes are needed.
    Partial,
    /// The bytes are not a valid request head; the parser's message.
    Invalid(String),
}

/// The mathematical content of a [`HeadParse`].
pub enum HeadView {
    Complete {
        len: nat,
        method: Option<Seq<char>>,
        path: Option<Seq<char>>,
        headers: Seq<(Seq<char>, Seq<u8>)>,
    },
    Partial,
    Invalid(Seq<char>),
}

/// The views of a list of raw headers.
pub open spec fn raw_headers_view(hs: Seq<(String, Vec<u8>)>) -> Seq<(Seq<char>, Seq<u8>)> {
    hs.map_values(|h: (String, Vec<u8>)| (h.0@, h.1@))
}

/// The views of an optional string.
pub open spec fn opt_view(o: Option<String>) -> Option<Seq<char>> {
    match o {
        Some(s) => Some(s@),
        None => None,
    }
}

impl View for HeadParse {
    type V = HeadView;

    open spec fn view(&self) -> HeadView {
        match self {
            HeadParse::Complete { len, method, path, headers } => HeadView::Complete {
                len: *len as nat,
                method: opt_view(*method),
                path: opt_view(*path),
                headers: raw_headers_view(headers@),
            },
            HeadParse::Partial => HeadView::Partial,
            HeadParse::Invalid(m) => HeadView::Invalid(m@),
        }
    }
}

/// What `httparse::Request::parse` reports for `buf` with room for
/// `max_headers` headers.
pub uninterp spec fn httparse_request(buf: Seq<u8>, max_headers: nat) -> HeadView;

/// `httparse::Request::parse` on `buf`, with room for `max_headers` headers.
/// The result is a function of the buffer and the header capacity; a complete
/// head ends within the buffer (the parser returns the offset of the body).
#[verifier::external_body]
fn parse_request_head(buf: &[u8], max_headers: usize) -> (r: HeadParse)
    ensures
        r@ == httparse_request(buf@, max_headers as nat),
        r matches HeadParse::Complete { len, .. } ==> len <= buf@.len(),
{
    let mut headers = vec![httparse::EMPTY_HEADER; max_headers];
    let mut req = httparse::Request::new(&mut headers);
    match req.parse(buf) {
        Ok(httparse::Status::Complete(len)) => HeadParse::Complete {
            len,
            method: req.method.map(str::to_owned),
            path: req.path.map(str::to_owned),
            headers: req.headers.iter().map(|h| (h.name.to_owned(), h.value.to_vec())).collect(),
        },
        Ok(httparse::Status::Partial) => HeadParse::Partial,
        Err(e) => HeadParse::Invalid(e.to_string()),
    }
}

/// `std::str::from_utf8`, as an owned string: `Some` exactly for valid UTF-8.
#[verifier::external_body]
pub(crate) fn utf8_to_string(b: &[u8]) -> (r: Option<String>)
    ensures
        r is Some <==> valid_utf8(b@),
        r matches Some(s) ==> s@ == decode_utf8(b@),
{
    std::str::from_utf8(b).ok().map(str::to_owned)
}

/// The value a `Content-Length` header declares, if it is a number.
pub open spec fn content_length_value(value: Seq<u8>) -> Option<nat> {
    parse_usize_spec(trim_spec(decode_utf8(value)))
}

/// Why a header makes the request unacceptable, if it does.
pub open spec fn header_error(name: Seq<char>, value: Seq<u8>) -> Option<Seq<char>> {
    if !valid_utf8(value) {
        Some("non-utf8 header"@)
    } else if str_eq_ignore_ascii_case(name, "transfer-encoding"@) {
        Some("unsupported transfer-encoding: "@ + decode_utf8(value))
    } else if str_eq_ignore_ascii_case(name, "content-length"@) && content_length_value(value) is None {
        Some("non-numeric content-length"@)
    } else {
        None
    }
}

/// The content length a header declares, if it is a `Content-Length` header.
pub open spec fn header_content_length(name: Seq<char>, value: Seq<u8>) -> Option<nat> {
    if str_eq_ignore_ascii_case(name, "content-length"@) {
        content_length_value(value)
    } else {
        None
    }
}

/// Scan the headers from index `i` on, in order: the first header error, or
/// the content length of the last `Content-Length` header (if any).
pub open spec fn scan_headers(hs: Seq<(Seq<char>, Seq<u8>)>, i: int) -> Result<Option<nat>, Seq<char>>
    decreases hs.len() - i,
{
    if i < 0 || i >= hs.len() {
        Ok(None)
    } else {
        match header_error(hs[i].0, hs[i].1) {
            Some(m) => Err(m),
            None => match scan_headers(hs, i + 1) {
                Err(m) => Err(m),
                Ok(Some(n)) => Ok(Some(n)),
                Ok(None) => Ok(header_content_length(hs[i].0, hs[i].1)),
            },
        }
    }
}

/// The headers with their values decoded as UTF-8.
pub open spec fn decoded_headers(hs: Seq<(Seq<char>, Seq<u8>)>) -> Seq<(Seq<char>, Seq<char>)> {
    hs.map_values(|h: (Seq<char>, Seq<u8>)| (h.0, decode_utf8(h.1)))
}

/// Why a request was rejected.
pub enum ReadError {
    /// Malformed or unsupported request, with the message.
    Parse(Seq<char>),
    /// The declared body exceeds the limit.
    TooLarge { limit: nat, got: nat },
}

/// What a complete head leads to.
pub enum HeadDecision {
    /// The request is rejected.
    Fail(ReadError),
    /// The request is acceptable; `req.body` holds the bytes after the head.
    Proceed { req: RequestView, content_length: nat },
}

/// The decision on a complete head ending at `len` in `buf`.
pub open spec fn decide_head(
    max_body: nat,
    buf: Seq<u8>,
    len: nat,
    method: Option<Seq<char>>,
    path: Option<Seq<char>>,
    hs: Seq<(Seq<char>, Seq<u8>)>,
) -> HeadDecision {
    if method is None {
        HeadDecision::Fail(ReadError::Parse("no method"@))
    } else if path is None {
        HeadDecision::Fail(ReadError::Parse("no path"@))
    } else {
        match scan_headers(hs, 0) {
            Err(m) => HeadDecision::Fail(ReadError::Parse(m)),
            Ok(cl) => {
                let n: nat = match cl {
                    Some(n) => n,
                    None => 0,
                };
                if cl is Some && n > max_body {
                    HeadDecision::Fail(ReadError::TooLarge { limit: max_body, got: n })
                } else if cl is None && buf.len() > len {
                    HeadDecision::Fail(ReadError::Parse("missing content-length with a body"@))
                } else {
                    HeadDecision::Proceed {
                        req: RequestView {
                            method: method->0,
                            path: path->0,
                            headers: decoded_headers(hs),
                            body: buf.subrange(len as int, buf.len() as int),
                        },
                        content_length: n,
                    }
                }
            },
        }
    }
}

/// An accepted head keeps every one of its headers, `Content-Length` and
/// `Host` included, in wire order, each value decoded as UTF-8; the method
/// and path are the parsed ones, and the body so far is every byte after the
/// head.
pub proof fn law_accepted_head_keeps_every_header(
    max_body: nat,
    buf: Seq<u8>,
    len: nat,
    method: Option<Seq<char>>,
    path: Option<Seq<char>>,
    hs: Seq<(Seq<char>, Seq<u8>)>,
)
    ensures
        decide_head(max_body, buf, len, method, path, hs) matches HeadDecision::Proceed { req, .. }
            ==> {
            &&& req.headers.len() == hs.len()
            &&& forall|i: int|
                0 <= i < hs.len() ==> #[trigger] req.headers[i] == (hs[i].0, decode_utf8(hs[i].1))
            &&& method == Some(req.method)
            &&& path == Some(req.path)
            &&& req.body == buf.subrange(len as int, buf.len() as int)
        },
{
}

/// The phase of a request reader.
pub enum PhaseView {
    /// Reading the head; the bytes so far.
    Head(Seq<u8>),
    /// Reading the body of an accepted head.
    Body { req: RequestView, content_length: nat },
    /// Finished (successfully or not).
    Done,
}

/// The mathematical state of a [`RequestReader`].
pub struct ReaderView {
    pub max_body: nat,
    pub phase: PhaseView,
}

/// What one step of reading yields.
pub enum StepView {
    /// More bytes are needed.
    More,
    /// The complete request.
    Request(RequestView),
    /// The request is rejected.
    Fail(ReadError),
    /// Any other outcome (never produced by the reader).
    Other,
}

/// The body phase after the body so far is `req.body`: done once the
/// declared length is reached (the body cut to that length).
pub open spec fn body_progress(req: RequestView, content_length: nat) -> (PhaseView, StepView) {
    if req.body.len() >= content_length {
        (PhaseView::Done, StepView::Request(RequestView { body: req.body.take(content_length as int), ..req }))
    } else {
        (PhaseView::Body { req, content_length }, StepView::More)
    }
}

/// The state and outcome after feeding `chunk` to a reader in state `v`.
pub open spec fn feed_spec(v: ReaderView, chunk: Seq<u8>) -> (PhaseView, StepView) {
    match v.phase {
        PhaseView::Head(buf) => {
            let nb = buf + chunk;
            if nb.len() > MAX_HEADER_BYTES {
                (PhaseView::Done, StepView::Fail(ReadError::Parse("headers exceed 16384B"@)))
            } else {
                match httparse_request(nb, MAX_HEADERS as nat) {
                    HeadView::Partial => (PhaseView::Head(nb), StepView::More),
                    HeadView::Invalid(m) => (PhaseView::Done, StepView::Fail(ReadError::Parse(m))),
                    HeadView::Complete { len, method, path, headers } => match decide_head(
                        v.max_body,
                        nb,
                        len,
                        method,
                        path,
                        headers,
                    ) {
                        HeadDecision::Fail(e) => (PhaseView::Done, StepView::Fail(e)),
                        HeadDecision::Proceed { req, content_length } => body_progress(
                            req,
                            content_length,
                        ),
                    },
                }
            }
        },
        PhaseView::Body { req, content_length } => body_progress(
            RequestView { body: req.body + chunk, ..req },
            content_length,
        ),
        PhaseView::Done => (PhaseView::Done, StepView::Other),
    }
}

/// The outcome of end-of-stream for a reader in state `v`.
pub open spec fn eof_spec(v: ReaderView) -> StepView {
    match v.phase {
        PhaseView::Head(buf) => StepView::Fail(
            ReadError::Parse(
                if buf.len() == 0 {
                    "eof before any bytes"@
                } else {
                    "eof before headers complete"@
                },
            ),
        ),
        PhaseView::Body { req, content_length } => StepView::Request(req),
        PhaseView::Done => StepView::Other,
    }
}

/// One step of reading: more bytes needed, or the final result.
pub enum ReadStep {
    /// Read more bytes and feed them.
    More,
    /// The request, or why it was rejected.
    Done(Result<ParsedHttp, ProxyError>),
}

/// The mathematical content of a final reading result.
pub open spec fn result_view(r: Result<ParsedHttp, ProxyError>) -> StepView {
    match r {
        Ok(p) => StepView::Request(p@),
        Err(ProxyError::HttpParse(m)) => StepView::Fail(ReadError::Parse(m@)),
        Err(ProxyError::BodyTooLarge { limit, got }) => StepView::Fail(
            ReadError::TooLarge { limit: limit as nat, got: got as nat },
        ),
        Err(_) => StepView::Other,
    }
}

/// The mathematical content of a reading step.
pub open spec fn step_view(s: ReadStep) -> StepView {
    match s {
        ReadStep::More => StepView::More,
        ReadStep::Done(r) => result_view(r),
    }
}

enum Phase {
    Head(Vec<u8>),
    Body { req: ParsedHttp, content_length: usize },
    Done,
}

/// Incremental reader of one HTTP/1.1 request.
pub struct RequestReader {
    max_body_bytes: usize,
    phase: Phase,
}

impl View for RequestReader {
    type V = ReaderView;

    closed spec fn view(&self) -> ReaderView {
        ReaderView {
            max_body: self.max_body_bytes as nat,
            phase: match self.phase {
                Phase::Head(buf) => PhaseView::Head(buf@),
                Phase::Body { req, content_length } => PhaseView::Body {
                    req: req@,
                    content_length: content_length as nat,
                },
                Phase::Done => PhaseView::Done,
            },
        }
    }
}

/// Check the headers of a complete head and take ownership of them.
fn decide(
    max_body: usize,
    buf: &Vec<u8>,
    len: usize,
    method: Option<String>,
    path: Option<String>,
    headers: &Vec<(String, Vec<u8>)>,
) -> (r: Result<(ParsedHttp, usize), ProxyError>)
    requires
        len <= buf@.len(),
    ensures
        match decide_head(
            max_body as nat,
            buf@,
            len as nat,
            opt_view(method),
            opt_view(path),
            raw_headers_view(headers@),
        ) {
            HeadDecision::Fail(e) => r is Err && result_view(Err(r->Err_0)) == StepView::Fail(e),
            HeadDecision::Proceed { req, content_length } => r matches Ok((p, n)) && p@ == req
                && n == content_length,
        },
{
    let ghost hv = raw_headers_view(headers@);
    let ghost decision = decide_head(
        max_body as nat,
        buf@,
        len as nat,
        opt_view(method),
        opt_view(path),
        hv,
    );
    let the_method = match method {
        Some(m) => m,
        None => return Err(ProxyError::HttpParse(string_of("no method"))),
    };
    let the_path = match path {
        Some(p) => p,
        None => return Err(ProxyError::HttpParse(string_of("no path"))),
    };
    assert(opt_view(method) == Some(the_method@) && opt_view(path) == Some(the_path@));
    let mut owned: Vec<(String, String)> = Vec::new();
    let mut content_length: usize = 0;
    let mut seen = false;
    let mut i: usize = 0;
    while i < headers.len()
        invariant
            i <= headers@.len(),
            hv == raw_headers_view(headers@),
            pairs_view(owned@) == decoded_headers(hv).take(i as int),
            scan_headers(hv, 0) == match scan_headers(hv, i as int) {
                Err(m) => Err(m),
                Ok(Some(n)) => Ok(Some(n)),
                Ok(None) => if seen {
                    Ok(Some(content_length as nat))
                } else {
                    Ok(None)
                },
            },
            !seen ==> content_length == 0,
            decision == decide_head(
                max_body as nat,
                buf@,
                len as nat,
                Some(the_method@),
                Some(the_path@),
                hv,
            ),
            decision == decide_head(
                max_body as nat,
                buf@,
                len as nat,
                opt_view(method),
                opt_view(path),
                raw_headers_view(headers@),
            ),
        decreases headers.len() - i,
    {
        let name = &headers[i].0;
        let value = &headers[i].1;
        assert(hv[i as int] == (name@, value@));
        let v = match utf8_to_string(value.as_slice()) {
            Some(v) => v,
            None => {
                assert(header_error(hv[i as int].0, hv[i as int].1) == Some("non-utf8 header"@));
                assert(scan_headers(hv, i as int) == Err::<Option<nat>, Seq<char>>("non-utf8 header"@));
                assert(scan_headers(hv, 0) == Err::<Option<nat>, Seq<char>>("non-utf8 header"@));
                assert(decision == HeadDecision::Fail(ReadError::Parse("non-utf8 header"@)));
                return Err(ProxyError::HttpParse(string_of("non-utf8 header")));
            },
        };
        if str_eq_ascii_ci(name.as_str(), "transfer-encoding") {
            assert(scan_headers(hv, i as int) == Err::<Option<nat>, Seq<char>>(
                "unsupported transfer-encoding: "@ + v@,
            ));
            return Err(ProxyError::HttpParse(concat_str("unsupported transfer-encoding: ", v.as_str())));
        }
        if str_eq_ascii_ci(name.as_str(), "content-length") {
            let t = trim_chars(&chars_of(v.as_str()));
            match parse_usize(&t) {
                Some(n) => {
                    content_length = n;
                    seen = true;
                },
                None => {
                    assert(scan_headers(hv, i as int) == Err::<Option<nat>, Seq<char>>(
                        "non-numeric content-length"@,
                    ));
                    return Err(ProxyError::HttpParse(string_of("non-numeric content-length")));
                },
            }
        }
        let ghost prev = owned@;
        assert(pairs_view(prev).len() == prev.len());
        assert(decoded_headers(hv).len() == hv.len());
        let nm = name.clone();
        owned.push((nm, v));
        assert(owned@ == prev.push((nm, v)));
        assert(decoded_headers(hv)[i as int] == (name@, v@));
        assert(pairs_view(owned@) =~= decoded_headers(hv).take(i + 1)) by {
            assert(pairs_view(prev) =~= decoded_headers(hv).take(i as int));
            assert forall|k: int| 0 <= k < i + 1 implies #[trigger] pairs_view(owned@)[k]
                == decoded_headers(hv).take(i + 1)[k] by {
                if k < i {
                    assert(owned@[k] == prev[k]);
                    assert(pairs_view(prev)[k] == decoded_headers(hv).take(i as int)[k]);
                }
            }
        }
        i += 1;
    }
    if seen && content_length > max_body {
        return Err(ProxyError::BodyTooLarge { limit: max_body, got: content_length });
    }
    if !seen && len < buf.len() {
        proof {
            reveal_strlit("missing content-length with a body");
        }
        return Err(ProxyError::HttpParse(string_of("missing content-length with a body")));
    }
    let mut body: Vec<u8> = Vec::new();
    let mut k: usize = len;
    while k < buf.len()
        invariant
            len <= k <= buf@.len(),
            body@ == buf@.subrange(len as int, k as int),
        decreases buf.len() - k,
    {
        body.push(buf[k]);
        k += 1;
        assert(body@ =~= buf@.subrange(len as int, k as int));
    }
    assert(decoded_headers(hv).take(headers@.len() as int) =~= decoded_headers(hv));
    Ok((ParsedHttp { method: the_method, path: the_path, headers: owned, body }, content_length))
}

/// Cut the body to the declared length if it is complete.
fn progress(req: ParsedHttp, content_length: usize) -> (r: (Phase, ReadStep))
    ensures
        ({
            let (ph, st) = body_progress(req@, content_length as nat);
            &&& step_view(r.1) == st
            &&& match (r.0, ph) {
                (Phase::Done, PhaseView::Done) => true,
                (Phase::Body { req: q, content_length: n }, PhaseView::Body { req: qv, content_length: nv }) => q@ == qv && n == nv,
                _ => false,
            }
        }),
{
    if req.body.len() >= content_length {
        let ghost before = req@;
        let mut req = req;
        req.body.truncate(content_length);
        assert(req@ =~= (RequestView { body: before.body.take(content_length as int), ..before }));
        (Phase::Done, ReadStep::Done(Ok(req)))
    } else {
        (Phase::Body { req, content_length }, ReadStep::More)
    }
}

impl RequestReader {
    /// A reader for one request whose body may declare at most
    /// `max_body_bytes` bytes.
    pub fn new(max_body_bytes: usize) -> (r: Self)
        ensures
            r@ == (ReaderView { max_body: max_body_bytes as nat, phase: PhaseView::Head(Seq::empty()) }),
    {
        RequestReader { max_body_bytes, phase: Phase::Head(Vec::new()) }
    }

    /// Feed the next bytes read from the client.
    pub fn feed(&mut self, chunk: &[u8]) -> (r: ReadStep)
        requires
            !(old(self)@.phase is Done),
        ensures
            ({
                let (ph, st) = feed_spec(old(self)@, chunk@);
                &&& final(self)@ == (ReaderView { max_body: old(self)@.max_body, phase: ph })
                &&& step_view(r) == st
            }),
    {
        let mut phase = Phase::Done;
        std::mem::swap(&mut phase, &mut self.phase);
        match phase {
            Phase::Head(mut buf) => {
                extend_bytes(&mut buf, chunk);
                if buf.len() > MAX_HEADER_BYTES {
                    return ReadStep::Done(Err(ProxyError::HttpParse(string_of("headers exceed 16384B"))));
                }
                match parse_request_head(buf.as_slice(), MAX_HEADERS) {
                    HeadParse::Partial => {
                        self.phase = Phase::Head(buf);
                        ReadStep::More
                    },
                    HeadParse::Invalid(m) => ReadStep::Done(Err(ProxyError::HttpParse(m))),
                    HeadParse::Complete { len, method, path, headers } => {
                        match decide(self.max_body_bytes, &buf, len, method, path, &headers) {
                            Err(e) => ReadStep::Done(Err(e)),
                            Ok((req, content_length)) => {
                                let (ph, st) = progress(req, content_length);
                                self.phase = ph;
                                st
                            },
                        }
                    },
                }
            },
            Phase::Body { mut req, content_length } => {
                extend_bytes(&mut req.body, chunk);
                let (ph, st) = progress(req, content_length);
                self.phase = ph;
                st
            },
            Phase::Done => ReadStep::More,
        }
    }

    /// Report that the client closed its side before the request was done.
    pub fn finish(&mut self) -> (r: Result<ParsedHttp, ProxyError>)
        requires
            !(old(self)@.phase is Done),
        ensures
            result_view(r) == eof_spec(old(self)@),
            final(self)@ == (ReaderView { max_body: old(self)@.max_body, phase: PhaseView::Done }),
    {
        let mut phase = Phase::Done;
        std::mem::swap(&mut phase, &mut self.phase);
        match phase {
            Phase::Head(buf) => {
                if buf.len() == 0 {
                    Err(ProxyError::HttpParse(string_of("eof before any bytes")))
                } else {
                    Err(ProxyError::HttpParse(string_of("eof before headers complete")))
                }
            },
            Phase::Body { req, content_length } => Ok(req),
            Phase::Done => Err(ProxyError::HttpParse(string_of("eof after the request"))),
        }
    }

    /// Whether the reader has finished.
    pub fn is_done(&self) -> (r: bool)
        ensures
            r == (self@.phase is Done),
    {
        match self.phase {
            Phase::Done => true,
            _ => false,
        }
    }

    /// How many bytes to read next: one chunk while reading the head, and no
    /// more than the rest of the declared body while reading the body.
    pub fn read_size(&self) -> (r: usize)
        ensures
            match self@.phase {
                PhaseView::Head(_) => r == READ_CHUNK,
                PhaseView::Body { req, content_length } => r == if req.body.len() >= content_length {
                    0
                } else if content_length - req.body.len() < READ_CHUNK {
                    content_length - req.body.len()
                } else {
                    READ_CHUNK as int
                },
                PhaseView::Done => r == 0,
            },
    {
        match &self.phase {
            Phase::Head(_) => READ_CHUNK,
            Phase::Body { req, content_length } => {
                if req.body.len() >= *content_length {
                    return 0;
                }
                let need = *content_length - req.body.len();
                if need < READ_CHUNK {
                    need
                } else {
                    READ_CHUNK
                }
            },
            Phase::Done => 0,
        }
    }
}

} // verus!
