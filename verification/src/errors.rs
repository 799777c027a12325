//! Error types of the data plane.

use vstd::prelude::*;
use crate::decimal::{dec_digits, decimal_string};
use crate::protocol::NetAddr;
use crate::text::{concat_str};

verus! {

/// `std::io::Error`, carried through opaquely.
#[verifier::external_type_specification]
#[verifier::external_body]
pub struct ExIoError(std::io::Error);

/// Non-fatal failures raised by the proxy. The listener catches these per
/// connection; nothing here stops the accept loop.
#[derive(Debug)]
pub enum ProxyError {
    /// IO failure on the client or upstream socket.
    Io(std::io::Error),
    /// The inbound request could not be parsed.
    HttpParse(String),
    /// Body exceeded `max_body_bytes`.
    BodyTooLarge {
        /// Configured maximum.
        limit: usize,
        /// Declared Content-Length.
        got: usize,
    },
    /// Couldn't open a TCP connection to the configured upstream.
    UpstreamConnect(NetAddr),
    /// The original-destination lookup failed in transparent mode.
    TransparentLookup(String),
}

impl ProxyError {
    /// The message of the error, for the variants whose text the crate
    /// determines (`Io` carries the operating system's own text).
    pub open spec fn spec_message(&self) -> Option<Seq<char>> {
        match self {
            ProxyError::Io(_) => None,
            ProxyError::HttpParse(s) => Some("http parse: "@ + s@),
            ProxyError::BodyTooLarge { limit, got } => Some(
                "body too large: "@ + dec_digits(*got as nat) + "B > limit "@ + dec_digits(
                    *limit as nat,
                ) + "B"@,
            ),
            ProxyError::UpstreamConnect(a) => Some("upstream connect: "@ + a.spec_text()),
            ProxyError::TransparentLookup(s) => Some("transparent-mode lookup: "@ + s@),
        }
    }

    /// The human-readable message of the error (what `Display` shows). It is
    /// never empty.
    pub fn message(&self) -> (r: String)
        ensures
            r@.len() > 0,
            self.spec_message() matches Some(m) ==> r@ == m,
    {
        proof {
            reveal_strlit("io: ");
            reveal_strlit("http parse: ");
            reveal_strlit("body too large: ");
            reveal_strlit("upstream connect: ");
            reveal_strlit("transparent-mode lookup: ");
        }
        match self {
            ProxyError::Io(e) => concat_str("io: ", crate::filter_error::io_error_text(e).as_str()),
            ProxyError::HttpParse(s) => concat_str("http parse: ", s.as_str()),
            ProxyError::BodyTooLarge { limit, got } => {
                let mut s = concat_str("body too large: ", decimal_string(*got as u64).as_str());
                s.append("B > limit ");
                s.append(decimal_string(*limit as u64).as_str());
                s.append("B");
                s
            },
            ProxyError::UpstreamConnect(a) => concat_str("upstream connect: ", a.text().as_str()),
            ProxyError::TransparentLookup(s) => concat_str("transparent-mode lookup: ", s.as_str()),
        }
    }
}

} // verus!
