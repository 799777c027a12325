//! The per-connection decisions of the data plane: the context a listener
//! hands its handler, which handler serves a protocol, where a connection is
//! forwarded, how a raw TCP burst is cut, and what a client that sent an
//! unreadable request is answered.

use vstd::prelude::*;
use crate::config::ServiceConfig;
use crate::errors::ProxyError;
use crate::protocol::{NetAddr, ProtocolKind, ProxyMode};
use crate::text::{extend_bytes, str_to_bytes_vec};
use crate::verdict::BlockResponse;

verus! {

/// Default per-burst idle timeout (in ms) for [`TcpHandler`]: services
/// answer fast or not at all.
pub const DEFAULT_TCP_IDLE_MS: u64 = 50;

/// Static per-service context handed to the handler on each accept.
#[derive(Debug, Clone)]
pub struct ServiceContext {
    /// Name of the service this handler is serving, used to locate the
    /// pipeline in the current rule set and to label log entries.
    pub service_name: String,
    /// Address to forward to after a Pass verdict.
    pub upstream: NetAddr,
    /// Response to send on Block.
    pub block_response: BlockResponse,
    /// Maximum body bytes to inspect (per service).
    pub max_body_bytes: usize,
}

/// The context of a connection to `cfg` that is forwarded to `upstream`:
/// the service's own block response, or the default one (403) when it sets
/// none.
pub fn service_context(cfg: &ServiceConfig, upstream: NetAddr) -> (r: ServiceContext)
    ensures
        r.service_name@ == cfg.name@,
        r.upstream == upstream,
        r.max_body_bytes == cfg.max_body_bytes,
        match cfg.block_response_override {
            Some(b) => r.block_response.same_as(b),
            None => r.block_response.is_default_403(),
        },
{
    let block_response = match &cfg.block_response_override {
        Some(b) => b.duplicate(),
        None => BlockResponse::default(),
    };
    ServiceContext {
        service_name: crate::text::string_of(cfg.name.as_str()),
        upstream,
        block_response,
        max_body_bytes: cfg.max_body_bytes,
    }
}

/// Where a connection is forwarded when the mode fixes it: the configured
/// upstream in reverse-proxy mode; in transparent mode the kernel's record
/// of the original destination decides, per connection (`None`).
pub fn static_upstream(mode: &ProxyMode) -> (r: Option<NetAddr>)
    ensures
        match *mode {
            ProxyMode::Reverse { upstream, .. } => r == Some(upstream),
            ProxyMode::Transparent { .. } => r is None,
        },
{
    match mode {
        ProxyMode::Reverse { upstream, .. } => Some(*upstream),
        ProxyMode::Transparent { .. } => None,
    }
}

/// HTTP/1.1 connection handler. One instance is reusable across many
/// connections; it carries no per-connection state.
#[derive(Debug, Clone, Copy)]
pub struct HttpHandler;

/// Raw TCP handler. `idle_ms` is the per-burst inactivity timeout: once a
/// connection has been idle for that long, the accumulated bytes are one
/// burst and run through the pipeline.
#[derive(Debug, Clone, Copy)]
pub struct TcpHandler {
    /// Idle timeout in milliseconds.
    pub idle_ms: u64,
}

impl TcpHandler {
    /// Construct a `TcpHandler` with the given idle timeout.
    pub fn new(idle_ms: u64) -> (r: Self)
        ensures
            r.idle_ms == idle_ms,
    {
        TcpHandler { idle_ms }
    }
}

/// The handler that serves a service speaking `protocol`.
pub enum Handler {
    /// The HTTP/1.1 handler.
    Http(HttpHandler),
    /// The raw TCP handler.
    Tcp(TcpHandler),
}

/// The handler a listener uses for `protocol`: HTTP requests go to the
/// HTTP handler, raw TCP to a TCP handler with the default idle timeout.
pub fn handler_for(protocol: ProtocolKind) -> (r: Handler)
    ensures
        match protocol {
            ProtocolKind::Http => r is Http,
            ProtocolKind::Tcp => r matches Handler::Tcp(h) && h.idle_ms == DEFAULT_TCP_IDLE_MS,
        },
{
    match protocol {
        ProtocolKind::Http => Handler::Http(HttpHandler),
        ProtocolKind::Tcp => Handler::Tcp(TcpHandler::new(DEFAULT_TCP_IDLE_MS)),
    }
}

/// The bytes of one raw TCP burst: everything read until end of stream, an
/// idle period, or the cap is reached.
pub struct Burst {
    buf: Vec<u8>,
    cap: usize,
    done: bool,
}

impl Burst {
    /// The bytes gathered so far.
    pub closed spec fn bytes(&self) -> Seq<u8> {
        self.buf@
    }

    /// The cap the burst was started with.
    pub closed spec fn cap(&self) -> nat {
        self.cap as nat
    }

    /// Whether the burst is complete.
    pub closed spec fn complete(&self) -> bool {
        self.done
    }

    /// An empty burst capped at `cap` bytes.
    pub fn new(cap: usize) -> (r: Self)
        ensures
            r.bytes().len() == 0,
            r.cap() == cap,
            !r.complete(),
    {
        Burst { buf: Vec::new(), cap, done: false }
    }

    /// Take what one read returned. An empty chunk is end of stream and
    /// completes the burst; otherwise the chunk is kept, and the burst is
    /// complete once it holds at least `cap` bytes. Returns whether it is
    /// complete.
    pub fn push(&mut self, chunk: &[u8]) -> (r: bool)
        requires
            !old(self).complete(),
            old(self).bytes().len() + chunk@.len() <= usize::MAX,
        ensures
            final(self).cap() == old(self).cap(),
            final(self).bytes() == old(self).bytes() + chunk@,
            r == final(self).complete(),
            r == (chunk@.len() == 0 || final(self).bytes().len() >= final(self).cap()),
    {
        if chunk.len() == 0 {
            self.done = true;
            proof {
                assert(self.buf@ =~= old(self).buf@ + chunk@);
            }
            return true;
        }
        extend_bytes(&mut self.buf, chunk);
        self.done = self.buf.len() >= self.cap;
        self.done
    }

    /// End the burst because the connection went idle.
    pub fn idle(&mut self)
        ensures
            final(self).bytes() == old(self).bytes(),
            final(self).cap() == old(self).cap(),
            final(self).complete(),
    {
        self.done = true;
    }

    /// Whether the burst is complete.
    pub fn is_complete(&self) -> (r: bool)
        ensures
            r == self.complete(),
    {
        self.done
    }

    /// The bytes gathered.
    pub fn into_bytes(self) -> (r: Vec<u8>)
        ensures
            r@ == self.bytes(),
    {
        self.buf
    }
}

/// What a client whose request could not be read is answered: `400` with
/// `bad request: <error>` as the body and no extra headers.
pub fn bad_request_response(err: &ProxyError) -> (r: BlockResponse)
    ensures
        r matches BlockResponse::HttpStatus { status, body, headers } && status == 400
            && headers@.len() == 0 && (err.spec_message() matches Some(m) ==> body@
            == vstd::utf8::encode_utf8("bad request: "@ + m)),
{
    let text = crate::text::concat_str("bad request: ", err.message().as_str());
    BlockResponse::HttpStatus { status: 400, body: str_to_bytes_vec(text.as_str()), headers: Vec::new() }
}

} // verus!
