//! Packet representation passed through the filter pipeline.

use vstd::prelude::*;
use crate::direction::Direction;
use crate::text::{str_eq_ascii_ci, str_eq_ignore_ascii_case};

verus! {

/// A parsed HTTP request the firewall has buffered for inspection.
///
/// Headers are kept as `(name, value)` pairs in wire order because HTTP allows
/// duplicate names and the order can matter.
#[derive(Debug, Clone, PartialEq, Eq)]
pub struct ParsedHttp {
    /// e.g. "GET", "POST".
    pub method: String,
    /// e.g. "/api/users?id=1".
    pub path: String,
    /// Header pairs in the order they appeared on the wire.
    pub headers: Vec<(String, String)>,
    /// Raw request body bytes, capped by the per-service `max_body_bytes`.
    pub body: Vec<u8>,
}

/// The mathematical content of a [`ParsedHttp`].
pub struct RequestView {
    pub method: Seq<char>,
    pub path: Seq<char>,
    pub headers: Seq<(Seq<char>, Seq<char>)>,
    pub body: Seq<u8>,
}

/// The views of a list of string pairs.
pub open spec fn pairs_view(hs: Seq<(String, String)>) -> Seq<(Seq<char>, Seq<char>)> {
    hs.map_values(|p: (String, String)| (p.0@, p.1@))
}

impl View for ParsedHttp {
    type V = RequestView;

    open spec fn view(&self) -> RequestView {
        RequestView {
            method: self.method@,
            path: self.path@,
            headers: pairs_view(self.headers@),
            body: self.body@,
        }
    }
}

/// The value of the first header at index `i` or later whose name equals
/// `name` up to ASCII case.
pub open spec fn header_from(hs: Seq<(String, String)>, name: Seq<char>, i: int) -> Option<
    Seq<char>,
>
    decreases hs.len() - i,
{
    if i < 0 || i >= hs.len() {
        None
    } else if str_eq_ignore_ascii_case(hs[i].0@, name) {
        Some(hs[i].1@)
    } else {
        header_from(hs, name, i + 1)
    }
}

/// The value of the first header whose name equals `name` up to ASCII case.
pub open spec fn header_lookup(hs: Seq<(String, String)>, name: Seq<char>) -> Option<Seq<char>> {
    header_from(hs, name, 0)
}

impl ParsedHttp {
    /// Construct a request from all of its parts.
    pub fn new(method: &str, path: &str, headers: Vec<(String, String)>, body: Vec<u8>) -> (r:
        Self)
        ensures
            r.method@ == method@,
            r.path@ == path@,
            r.headers == headers,
            r.body == body,
    {
        ParsedHttp { method: method.to_owned(), path: path.to_owned(), headers, body }
    }

    /// Look up the first header with the given (ASCII case-insensitive) name.
    pub fn header(&self, name: &str) -> (r: Option<&str>)
        ensures
            match r {
                Some(v) => header_lookup(self.headers@, name@) == Some(v@),
                None => header_lookup(self.headers@, name@) is None,
            },
    {
        let mut i: usize = 0;
        while i < self.headers.len()
            invariant
                i <= self.headers@.len(),
                header_lookup(self.headers@, name@) == header_from(self.headers@, name@, i as int),
            decreases self.headers.len() - i,
        {
            if str_eq_ascii_ci(self.headers[i].0.as_str(), name) {
                return Some(self.headers[i].1.as_str());
            }
            i += 1;
        }
        None
    }
}

/// A single inspectable unit handed to the filter pipeline.
#[derive(Debug)]
pub enum Packet<'a> {
    /// A buffered burst of bytes from a raw TCP service.
    Raw {
        /// The buffered bytes.
        bytes: &'a [u8],
        /// Direction relative to the protected service.
        direction: Direction,
    },
    /// A buffered HTTP request or response.
    Http {
        /// The parsed request/response.
        req: &'a ParsedHttp,
        /// Direction relative to the protected service.
        direction: Direction,
    },
}

impl<'a> Packet<'a> {
    /// The direction of the packet, whatever its variant.
    pub open spec fn spec_direction(&self) -> Direction {
        match self {
            Packet::Raw { direction, .. } => *direction,
            Packet::Http { direction, .. } => *direction,
        }
    }

    /// Returns the direction the packet is flowing, regardless of variant.
    pub fn direction(&self) -> (r: Direction)
        ensures
            r == self.spec_direction(),
    {
        match self {
            Packet::Raw { direction, .. } => *direction,
            Packet::Http { direction, .. } => *direction,
        }
    }
}

} // verus!
