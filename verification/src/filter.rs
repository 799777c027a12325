//! The `Filter` trait every filter type implements, and a filter instance in
//! a service's pipeline.

use vstd::prelude::*;
use crate::direction::Direction;
use crate::packet::Packet;
use crate::verdict::{Verdict, VerdictView};

verus! {

/// A single filter in a pipeline. Implementations answer "does this packet
/// match my rule?" and nothing else: dry-run, direction and instance toggles
/// are handled by the pipeline executor.
///
/// A filter that describes itself (`described`) promises that `kind` is
/// `spec_kind` and `accepts` is `spec_accepts`; every filter returns from
/// `inspect` a verdict that `inspect_allows` admits for the packet. Filters
/// whose verdict depends only on the packet admit exactly one verdict; a
/// filter that asks an outside process may admit several.
///
/// The specification functions have defaults so that filters written outside
/// this crate implement only the executable methods. Such a filter is not
/// described and admits every verdict, so its methods owe nothing; the
/// filters of this crate describe themselves.
pub trait Filter: Send + Sync {
    /// Whether the filter's kind name and acceptance are given by
    /// `spec_kind` and `spec_accepts`.
    open spec fn described(&self) -> bool {
        false
    }

    /// The stable kind name (e.g. `"regex"`), for a described filter.
    open spec fn spec_kind(&self) -> Seq<char> {
        Seq::empty()
    }

    /// Whether the filter wants to inspect `p`, for a described filter.
    open spec fn spec_accepts<'a>(&self, p: Packet<'a>) -> bool {
        true
    }

    /// Whether `v` is a verdict the filter may return for `p`.
    open spec fn inspect_allows<'a>(&self, p: Packet<'a>, v: VerdictView) -> bool {
        true
    }

    /// Stable identifier for the filter kind, e.g. `"regex"`.
    fn kind(&self) -> (r: &'static str)
        ensures
            self.described() ==> r@ == self.spec_kind(),
    ;

    /// Whether this filter is interested in inspecting the given packet; the
    /// executor skips `inspect` when it is not.
    fn accepts(&self, p: &Packet) -> (r: bool)
        ensures
            self.described() ==> r == self.spec_accepts(*p),
    ;

    /// Inspect the packet and return a verdict.
    fn inspect(&self, p: &Packet) -> (r: Verdict)
        ensures
            self.inspect_allows(*p, r@),
    ;
}

/// One entry in a service's pipeline: a built filter plus the per-instance
/// toggles that control how the executor treats it.
pub struct FilterInstance {
    /// Stable id used for logging and UI deep-links.
    pub id: u128,
    /// Operator-supplied display name.
    pub display_name: String,
    /// If false, the executor skips this instance entirely.
    pub enabled: bool,
    /// If true, a `Block` verdict is converted to a log-only entry.
    pub dry_run: bool,
    /// Whether the executor should run this instance on inbound traffic.
    pub on_inbound: bool,
    /// Whether the executor should run this instance on outbound traffic.
    pub on_outbound: bool,
    /// The built filter.
    pub filter: std::sync::Arc<dyn Filter>,
}

impl FilterInstance {
    /// Whether this instance applies to packets flowing in `dir`.
    pub open spec fn spec_applies_to(&self, dir: Direction) -> bool {
        match dir {
            Direction::Inbound => self.on_inbound,
            Direction::Outbound => self.on_outbound,
        }
    }

    /// True if this instance applies to packets flowing in `dir`.
    pub fn applies_to(&self, dir: Direction) -> (r: bool)
        ensures
            r == self.spec_applies_to(dir),
    {
        match dir {
            Direction::Inbound => self.on_inbound,
            Direction::Outbound => self.on_outbound,
        }
    }
}

} // verus!
