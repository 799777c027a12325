//! The Python sidecar: its length-prefixed JSON wire format, the request the
//! data plane sends for a packet, and the verdict it draws from the reply.
//!
//! Frame: `[u32 big-endian length][JSON object]`. The JSON text itself is
//! produced and parsed outside this crate; here a frame is bytes.

use vstd::prelude::*;
use crate::base64::{base64_encode, base64_spec};
use crate::direction::Direction;
use crate::filter_error::{io_error_text, json_error_text};
use crate::packet::{Packet, pairs_view};
use crate::decimal::{dec_digits, decimal_string};
use crate::text::{concat_str, string_of};
use crate::verdict::{Verdict, VerdictView};
use crate::venv::{join_path, path_join};

verus! {

/// Optional HTTP block on a [`Request`].
#[derive(Debug, Clone)]
pub struct RequestHttp {
    /// HTTP method.
    pub method: String,
    /// Request path.
    pub path: String,
    /// Headers as `[name, value]` pairs.
    pub headers: Vec<(String, String)>,
    /// Base64-encoded body bytes.
    pub body_b64: String,
}

/// Wire-format request from the data plane to the sidecar.
#[derive(Debug, Clone)]
pub struct Request {
    /// Monotonic per-process request id; echoed in the response.
    pub id: u64,
    /// `"inbound"` or `"outbound"`.
    pub direction: String,
    /// `"raw"` or `"http"`.
    pub kind: String,
    /// Base64-encoded raw bytes (for HTTP packets empty: the `http` field
    /// carries the payload).
    pub bytes_b64: String,
    /// HTTP fields when `kind == "http"`.
    pub http: Option<RequestHttp>,
}

/// Wire-format response. The `verdict` field discriminates.
#[derive(Debug, Clone)]
pub enum Response {
    /// Pass verdict.
    Pass {
        /// Echoes the request id.
        id: u64,
    },
    /// Block verdict.
    Block {
        /// Echoes the request id.
        id: u64,
        /// Human-readable reason from the user's script.
        reason: String,
    },
}

impl Response {
    /// The request id a response refers to, whatever its verdict.
    pub open spec fn spec_id(&self) -> u64 {
        match self {
            Response::Pass { id } => *id,
            Response::Block { id, .. } => *id,
        }
    }

    /// Request id this response refers to.
    pub fn id(&self) -> (r: u64)
        ensures
            r == self.spec_id(),
    {
        match self {
            Response::Pass { id } => *id,
            Response::Block { id, .. } => *id,
        }
    }
}

/// Maximum frame size accepted by the codec (8 MiB).
pub const MAX_FRAME_BYTES: u32 = 8 * 1024 * 1024;

/// Errors raised by the framing codec.
#[derive(Debug)]
pub enum CodecError {
    /// Underlying socket failure.
    Io(std::io::Error),
    /// Length prefix announced a frame larger than `MAX_FRAME_BYTES`.
    Oversized(u32),
    /// JSON in the frame body failed to deserialize.
    Json(serde_json::Error),
}

impl CodecError {
    /// The message of the error, for the variant whose text the crate
    /// determines (`Io` and `Json` end with their source's own text).
    pub open spec fn spec_message(&self) -> Option<Seq<char>> {
        match self {
            CodecError::Oversized(n) => Some(
                "oversized frame: "@ + dec_digits(*n as nat) + " bytes"@,
            ),
            _ => None,
        }
    }

    /// The human-readable message of the error (what `Display` shows).
    pub fn message(&self) -> (r: String)
        ensures
            self.spec_message() matches Some(m) ==> r@ == m,
    {
        match self {
            CodecError::Io(e) => concat_str("io: ", io_error_text(e).as_str()),
            CodecError::Oversized(n) => {
                let mut s = concat_str("oversized frame: ", decimal_string(*n as u64).as_str());
                s.append(" bytes");
                s
            },
            CodecError::Json(e) => concat_str("json: ", json_error_text(e).as_str()),
        }
    }
}

/// The big-endian value of a four-byte length prefix.
pub open spec fn be_u32(h: Seq<u8>) -> int {
    h[0] * 16777216 + h[1] * 65536 + h[2] * 256 + h[3]
}

/// The four-byte big-endian prefix of a frame whose body is `n` bytes long.
pub open spec fn be_prefix(n: int) -> Seq<u8> {
    seq![(n / 16777216) as u8, ((n / 65536) % 256) as u8, ((n / 256) % 256) as u8, (n % 256) as u8]
}

/// Decode a frame's length prefix: the body length it announces, or
/// [`CodecError::Oversized`] with that length when it exceeds the cap.
pub fn decode_frame_len(header: [u8; 4]) -> (r: Result<usize, CodecError>)
    ensures
        be_u32(header@) <= MAX_FRAME_BYTES ==> (r matches Ok(n) && n == be_u32(header@)),
        be_u32(header@) > MAX_FRAME_BYTES ==> (r matches Err(CodecError::Oversized(n)) && n
            == be_u32(header@)),
{
    let len: u32 = (header[0] as u32) * 16777216 + (header[1] as u32) * 65536 + (header[2] as u32)
        * 256 + (header[3] as u32);
    if len > MAX_FRAME_BYTES {
        Err(CodecError::Oversized(len))
    } else {
        Ok(len as usize)
    }
}

/// Frame a JSON body: the big-endian length prefix followed by the body.
/// A body over `u32::MAX` bytes fails with `Oversized(u32::MAX)`, one over
/// the cap with `Oversized` of its length.
pub fn encode_frame(body: &[u8]) -> (r: Result<Vec<u8>, CodecError>)
    ensures
        body@.len() <= MAX_FRAME_BYTES ==> (r matches Ok(f) && f@ == be_prefix(
            body@.len() as int,
        ) + body@),
        MAX_FRAME_BYTES < body@.len() <= u32::MAX ==> (r matches Err(CodecError::Oversized(n))
            && n == body@.len()),
        body@.len() > u32::MAX ==> (r matches Err(CodecError::Oversized(n)) && n == u32::MAX),
{
    if body.len() > 0xffff_ffffusize {
        return Err(CodecError::Oversized(0xffff_ffffu32));
    }
    let len = body.len() as u32;
    if len > MAX_FRAME_BYTES {
        return Err(CodecError::Oversized(len));
    }
    let mut out: Vec<u8> = Vec::new();
    out.push((len / 16777216) as u8);
    out.push(((len / 65536) % 256) as u8);
    out.push(((len / 256) % 256) as u8);
    out.push((len % 256) as u8);
    crate::text::extend_bytes(&mut out, body);
    proof {
        assert(out@ =~= be_prefix(body@.len() as int) + body@);
    }
    Ok(out)
}

/// A frame's prefix announces the length of the body it was built from:
/// decoding the prefix of `encode_frame(body)` gives `body.len()` back.
pub proof fn law_frame_prefix_round_trips(n: int)
    requires
        0 <= n <= MAX_FRAME_BYTES,
    ensures
        be_prefix(n).len() == 4,
        be_u32(be_prefix(n)) == n,
{
    assert(be_prefix(n)[0] == n / 16777216);
    assert(be_prefix(n)[1] == (n / 65536) % 256);
    assert(be_prefix(n)[2] == (n / 256) % 256);
    assert(be_prefix(n)[3] == n % 256);
    assert((n / 16777216) * 16777216 + ((n / 65536) % 256) * 65536 + ((n / 256) % 256) * 256 + n
        % 256 == n) by (nonlinear_arith)
        requires
            0 <= n <= 8388608,
    ;
}

/// The wire name of a direction.
pub fn direction_str(d: Direction) -> (r: &'static str)
    ensures
        r@ == d.spec_name(),
{
    d.name()
}

/// The views of a request's HTTP block.
pub struct RequestHttpView {
    pub method: Seq<char>,
    pub path: Seq<char>,
    pub headers: Seq<(Seq<char>, Seq<char>)>,
    pub body_b64: Seq<char>,
}

/// Whether `r` is the request the data plane sends for packet `p` (before
/// the supervisor numbers it): the direction's name, the kind, and the
/// bytes (raw) or the HTTP fields with the body (HTTP) in base64.
pub open spec fn request_for(r: Request, p: Packet) -> bool {
    &&& r.id == 0
    &&& r.direction@ == p.spec_direction().spec_name()
    &&& match p {
        Packet::Raw { bytes, .. } => {
            &&& r.kind@ == "raw"@
            &&& r.bytes_b64@ == base64_spec(bytes@)
            &&& r.http is None
        },
        Packet::Http { req, .. } => {
            &&& r.kind@ == "http"@
            &&& r.bytes_b64@.len() == 0
            &&& r.http matches Some(h) && h.method@ == req.method@ && h.path@ == req.path@
                && pairs_view(h.headers@) == pairs_view(req.headers@) && h.body_b64@
                == base64_spec(req.body@)
        },
    }
}

/// A field-for-field copy of a list of header pairs.
fn copy_pairs(hs: &Vec<(String, String)>) -> (r: Vec<(String, String)>)
    ensures
        pairs_view(r@) == pairs_view(hs@),
{
    let mut out: Vec<(String, String)> = Vec::new();
    let mut i: usize = 0;
    while i < hs.len()
        invariant
            i <= hs@.len(),
            out@.len() == i,
            forall|k: int|
                0 <= k < i ==> (#[trigger] out@[k]).0@ == hs@[k].0@ && out@[k].1@ == hs@[k].1@,
        decreases hs.len() - i,
    {
        out.push((string_of(hs[i].0.as_str()), string_of(hs[i].1.as_str())));
        i += 1;
    }
    proof {
        assert(pairs_view(out@) =~= pairs_view(hs@));
    }
    out
}

/// The request sent to the sidecar for `packet`; its id is 0 until the
/// supervisor assigns one.
pub fn build_request(packet: &Packet<'_>) -> (r: Request)
    ensures
        request_for(r, *packet),
{
    proof {
        reveal_strlit("raw");
        reveal_strlit("http");
        reveal_strlit("");
    }
    match packet {
        Packet::Raw { bytes, direction } => Request {
            id: 0,
            direction: string_of(direction_str(*direction)),
            kind: string_of("raw"),
            bytes_b64: base64_encode(bytes),
            http: None,
        },
        Packet::Http { req, direction } => Request {
            id: 0,
            direction: string_of(direction_str(*direction)),
            kind: string_of("http"),
            bytes_b64: String::new(),
            http: Some(
                RequestHttp {
                    method: string_of(req.method.as_str()),
                    path: string_of(req.path.as_str()),
                    headers: copy_pairs(&req.headers),
                    body_b64: base64_encode(req.body.as_slice()),
                },
            ),
        },
    }
}

/// The verdict a sidecar filter draws from the supervisor's reply.
///
/// `reply` is `None` when the supervisor fell back (not started, socket
/// error, timeout or malformed reply): that passes, or blocks when
/// `fail_closed` is set. A reply the sidecar gave is followed as it stands:
/// `Pass` passes and `Block` blocks with its reason, in either mode.
pub open spec fn sidecar_verdict_spec(reply: Option<Response>, fail_closed: bool) -> VerdictView {
    match reply {
        None => if fail_closed {
            VerdictView::Block("sidecar unavailable (fail-closed)"@)
        } else {
            VerdictView::Pass
        },
        Some(Response::Pass { .. }) => VerdictView::Pass,
        Some(Response::Block { reason, .. }) => VerdictView::Block(reason@),
    }
}

/// The verdict a sidecar filter returns for the supervisor's reply, `None`
/// standing for the supervisor's fallback.
pub fn sidecar_verdict(reply: Option<Response>, fail_closed: bool) -> (r: Verdict)
    ensures
        r@ == sidecar_verdict_spec(reply, fail_closed),
{
    match reply {
        None => {
            if fail_closed {
                proof {
                    reveal_strlit("sidecar unavailable (fail-closed)");
                }
                Verdict::Block { reason: string_of("sidecar unavailable (fail-closed)") }
            } else {
                Verdict::Pass
            }
        },
        Some(Response::Pass { .. }) => Verdict::Pass,
        Some(Response::Block { reason, .. }) => Verdict::Block { reason },
    }
}

/// JSON config blob for [`PythonSidecarKind`].
#[derive(Debug, Clone)]
pub struct PythonSidecarConfig {
    /// Service name. Used to name the Unix socket file
    /// (`<socket_dir>/<service_name>.sock`) and the staged user script
    /// (`<socket_dir>/<service_name>.py`).
    pub service_name: String,
    /// User-supplied Python script body. Must define a top-level
    /// `filter(packet)` function that returns `None` (pass) or a non-empty
    /// string reason (block).
    pub script: String,
    /// `requirements.txt` contents. Empty string means "stdlib only".
    pub requirements: String,
    /// Per-call timeout in milliseconds. Defaults to 10 ms.
    pub timeout_ms: u64,
    /// When `true`, flips fail-open to fail-closed: any sidecar error or
    /// timeout produces a Block verdict instead of Pass.
    pub fail_closed: bool,
}

/// The per-call timeout a sidecar config gets when it names none (10 ms).
pub fn default_timeout_ms() -> (r: u64)
    ensures
        r == 10,
{
    10
}

/// Registry handle for the Python sidecar filter. Building one installs a
/// venv and stages scripts on disk, so the build itself runs outside this
/// crate; this crate decides where everything goes ([`sidecar_layout`]).
pub struct PythonSidecarKind;

impl PythonSidecarKind {
    /// Stable identifier persisted in configs; equal to the filter's kind.
    pub const NAME: &'static str = "python_sidecar";
}

/// Where a sidecar's files go: the venv's Python, the wrapper script staged
/// beside it, and the user script and Unix socket under the socket
/// directory, named after the service.
pub struct SidecarLayout {
    /// `<venv>/bin/python`.
    pub python: String,
    /// `<venv>/minos_wrapper.py`.
    pub wrapper: String,
    /// `<socket_dir>/<service>.py`.
    pub script: String,
    /// `<socket_dir>/<service>.sock`.
    pub socket: String,
}

/// Lay out the files of the sidecar of `service_name`, whose venv is
/// `venv_dir`, under `socket_dir`.
pub fn sidecar_layout(venv_dir: &str, socket_dir: &str, service_name: &str) -> (r: SidecarLayout)
    ensures
        r.python@ == path_join(path_join(venv_dir@, "bin"@), "python"@),
        r.wrapper@ == path_join(venv_dir@, "minos_wrapper.py"@),
        r.script@ == path_join(socket_dir@, service_name@ + ".py"@),
        r.socket@ == path_join(socket_dir@, service_name@ + ".sock"@),
{
    let bin = join_path(venv_dir, "bin");
    let script_name = concat_str(service_name, ".py");
    let socket_name = concat_str(service_name, ".sock");
    SidecarLayout {
        python: join_path(bin.as_str(), "python"),
        wrapper: join_path(venv_dir, "minos_wrapper.py"),
        script: join_path(socket_dir, script_name.as_str()),
        socket: join_path(socket_dir, socket_name.as_str()),
    }
}

} // verus!
