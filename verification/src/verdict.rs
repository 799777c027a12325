//! Verdict produced by a filter, and the block-response shape used when a
//! filter or pipeline rejects a packet.

use vstd::prelude::*;
use crate::packet::pairs_view;

verus! {

/// What a single filter (or the pipeline as a whole) decided about a packet.
#[derive(Debug, Clone, PartialEq, Eq)]
pub enum Verdict {
    /// Allow the packet to continue.
    Pass,
    /// Block the packet, including a human-readable reason for logging.
    Block {
        /// Why the filter rejected this packet.
        reason: String,
    },
}

/// The mathematical content of a [`Verdict`].
pub enum VerdictView {
    Pass,
    Block(Seq<char>),
}

impl View for Verdict {
    type V = VerdictView;

    open spec fn view(&self) -> VerdictView {
        match self {
            Verdict::Pass => VerdictView::Pass,
            Verdict::Block { reason } => VerdictView::Block(reason@),
        }
    }
}

impl Verdict {
    /// Whether the verdict lets the packet through.
    pub fn is_pass(&self) -> (r: bool)
        ensures
            r == (*self is Pass),
    {
        match self {
            Verdict::Pass => true,
            Verdict::Block { .. } => false,
        }
    }

    /// Whether the verdict stops the packet.
    pub fn is_block(&self) -> (r: bool)
        ensures
            r == (*self is Block),
    {
        match self {
            Verdict::Pass => false,
            Verdict::Block { .. } => true,
        }
    }
}

/// The response Minos sends to the client when a request is blocked.
///
/// For HTTP services this becomes the response body and status. For raw TCP
/// services Minos closes the connection regardless of the variant.
#[derive(Debug, Clone, PartialEq, Eq)]
pub enum BlockResponse {
    /// Send a fixed HTTP status with the given body and headers.
    HttpStatus {
        /// HTTP status code, e.g. 403 or 404.
        status: u16,
        /// Response body bytes (may be empty).
        body: Vec<u8>,
        /// Additional headers to send alongside the status.
        headers: Vec<(String, String)>,
    },
    /// Close the connection without sending a response (TCP default).
    Close,
}

impl BlockResponse {
    /// The default block response: HTTP 403 with no body and no headers.
    pub open spec fn is_default_403(self) -> bool {
        match self {
            BlockResponse::HttpStatus { status, body, headers } => status == 403 && body@.len()
                == 0 && headers@.len() == 0,
            BlockResponse::Close => false,
        }
    }
}

impl BlockResponse {
    /// `a` and `b` are the same response: both close, or both send the same
    /// status, body and headers.
    pub open spec fn same_as(self, other: BlockResponse) -> bool {
        match (self, other) {
            (
                BlockResponse::HttpStatus { status: s1, body: b1, headers: h1 },
                BlockResponse::HttpStatus { status: s2, body: b2, headers: h2 },
            ) => s1 == s2 && b1@ == b2@ && pairs_view(h1@) == pairs_view(h2@),
            (BlockResponse::Close, BlockResponse::Close) => true,
            _ => false,
        }
    }

    /// A field-for-field copy of the response.
    pub fn duplicate(&self) -> (r: Self)
        ensures
            r.same_as(*self),
    {
        match self {
            BlockResponse::HttpStatus { status, body, headers } => {
                let mut hs: Vec<(String, String)> = Vec::new();
                let mut i: usize = 0;
                while i < headers.len()
                    invariant
                        i <= headers@.len(),
                        hs@.len() == i,
                        forall|k: int|
                            0 <= k < i ==> (#[trigger] hs@[k]).0@ == headers@[k].0@ && hs@[k].1@
                                == headers@[k].1@,
                    decreases headers.len() - i,
                {
                    hs.push(
                        (
                            crate::text::string_of(headers[i].0.as_str()),
                            crate::text::string_of(headers[i].1.as_str()),
                        ),
                    );
                    i += 1;
                }
                proof {
                    assert(pairs_view(hs@) =~= pairs_view(headers@));
                }
                BlockResponse::HttpStatus {
                    status: *status,
                    body: crate::text::bytes_to_vec(body.as_slice()),
                    headers: hs,
                }
            },
            BlockResponse::Close => BlockResponse::Close,
        }
    }
}

impl Default for BlockResponse {
    fn default() -> (r: Self)
        ensures
            r.is_default_403(),
    {
        BlockResponse::HttpStatus { status: 403, body: Vec::new(), headers: Vec::new() }
    }
}

} // verus!
