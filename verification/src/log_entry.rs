//! Block-log entry produced by the executor and persisted by the storage layer.

use vstd::prelude::*;
use crate::direction::Direction;
use crate::text::bytes_to_vec;

verus! {

/// One row in the block log: a record of a single filter decision that either
/// blocked traffic or would have blocked it (dry-run match).
#[derive(Debug, Clone, PartialEq, Eq)]
pub struct LogEntry {
    /// Storage-assigned id; `None` until the row is persisted.
    pub id: Option<u64>,
    /// Unix milliseconds when the decision was made.
    pub ts: i64,
    /// Service name (matches `ServiceConfig::name`).
    pub service: String,
    /// Direction the inspected packet was flowing.
    pub direction: Direction,
    /// Id of the filter instance that fired.
    pub filter_id: u128,
    /// Kind name of the filter that fired (denormalized for query speed).
    pub rule_kind: String,
    /// Whether this was a dry-run match (true) or a real block (false).
    pub dry_run: bool,
    /// Human-readable reason from the filter.
    pub reason: String,
    /// Truncated bytes of the matched packet.
    pub sample: Vec<u8>,
}

/// The mathematical content of a [`LogEntry`].
pub struct LogRecord {
    pub id: Option<u64>,
    pub ts: i64,
    pub service: Seq<char>,
    pub direction: Direction,
    pub filter_id: u128,
    pub rule_kind: Seq<char>,
    pub dry_run: bool,
    pub reason: Seq<char>,
    pub sample: Seq<u8>,
}

impl View for LogEntry {
    type V = LogRecord;

    open spec fn view(&self) -> LogRecord {
        LogRecord {
            id: self.id,
            ts: self.ts,
            service: self.service@,
            direction: self.direction,
            filter_id: self.filter_id,
            rule_kind: self.rule_kind@,
            dry_run: self.dry_run,
            reason: self.reason@,
            sample: self.sample@,
        }
    }
}

impl LogEntry {
    /// A copy of this entry with the given storage id.
    pub fn with_id(&self, id: Option<u64>) -> (r: LogEntry)
        ensures
            r@ == (LogRecord { id, ..self@ }),
    {
        LogEntry {
            id,
            ts: self.ts,
            service: self.service.clone(),
            direction: self.direction,
            filter_id: self.filter_id,
            rule_kind: self.rule_kind.clone(),
            dry_run: self.dry_run,
            reason: self.reason.clone(),
            sample: bytes_to_vec(self.sample.as_slice()),
        }
    }

    /// A field-for-field copy of this entry.
    pub fn duplicate(&self) -> (r: LogEntry)
        ensures
            r@ == self@,
    {
        self.with_id(self.id)
    }
}

/// Predicate for `Storage::query_log`. Empty vectors mean "no constraint on
/// this dimension"; `None` means "no bound".
#[derive(Debug, Clone, PartialEq, Eq)]
pub struct LogFilter {
    /// Restrict to these services. Empty = all services.
    pub services: Vec<String>,
    /// Restrict to these directions. Empty = both.
    pub directions: Vec<Direction>,
    /// Restrict to these filter kinds. Empty = all kinds.
    pub kinds: Vec<String>,
    /// Restrict to a specific filter instance.
    pub filter_id: Option<u128>,
    /// `Some(true)` shows only dry-run matches; `Some(false)` only real blocks.
    pub dry_run_only: Option<bool>,
    /// Case-insensitive substring match against `reason` and `sample`.
    pub search: Option<String>,
    /// Earliest unix millisecond timestamp (inclusive).
    pub since_ms: Option<i64>,
    /// Latest unix millisecond timestamp (exclusive).
    pub until_ms: Option<i64>,
}

/// The mathematical content of a [`LogFilter`].
pub struct LogFilterView {
    pub services: Seq<Seq<char>>,
    pub directions: Seq<Direction>,
    pub kinds: Seq<Seq<char>>,
    pub filter_id: Option<u128>,
    pub dry_run_only: Option<bool>,
    pub search: Option<Seq<char>>,
    pub since_ms: Option<i64>,
    pub until_ms: Option<i64>,
}

/// The views of a sequence of strings.
pub open spec fn strings_view(v: Seq<String>) -> Seq<Seq<char>> {
    v.map_values(|s: String| s@)
}

impl View for LogFilter {
    type V = LogFilterView;

    open spec fn view(&self) -> LogFilterView {
        LogFilterView {
            services: strings_view(self.services@),
            directions: self.directions@,
            kinds: strings_view(self.kinds@),
            filter_id: self.filter_id,
            dry_run_only: self.dry_run_only,
            search: match self.search {
                Some(s) => Some(s@),
                None => None,
            },
            since_ms: self.since_ms,
            until_ms: self.until_ms,
        }
    }
}

impl LogFilterView {
    /// A filter with no constraint on any dimension.
    pub open spec fn is_unrestricted(self) -> bool {
        &&& self.services.len() == 0
        &&& self.directions.len() == 0
        &&& self.kinds.len() == 0
        &&& self.filter_id is None
        &&& self.dry_run_only is None
        &&& self.search is None
        &&& self.since_ms is None
        &&& self.until_ms is None
    }
}

impl Default for LogFilter {
    fn default() -> (r: Self)
        ensures
            r@.is_unrestricted(),
    {
        LogFilter {
            services: Vec::new(),
            directions: Vec::new(),
            kinds: Vec::new(),
            filter_id: None,
            dry_run_only: None,
            search: None,
            since_ms: None,
            until_ms: None,
        }
    }
}

} // verus!
