//! The [`Storage`] contract every persistence backend meets: versioned config
//! blobs, the active-version pointer, the block log and key/value settings,
//! described over a mathematical model of the store.

use vstd::prelude::*;
use crate::log_entry::{LogEntry, LogFilter, LogFilterView, LogRecord};
use crate::text::{seq_contains, unicode_lowercase, utf8_lossy, concat_str};

verus! {

/// Errors a storage backend can produce.
#[derive(Debug, Clone, PartialEq, Eq)]
pub enum StorageError {
    /// The requested version (or other row) was not found.
    NotFound(String),
    /// Backend-specific IO/serialization/etc. failure.
    Backend(String),
    /// Stored data could not be decoded.
    Malformed(String),
}

impl StorageError {
    /// The human-readable message of the error.
    pub open spec fn spec_message(&self) -> Seq<char> {
        match self {
            StorageError::NotFound(s) => "not found: "@ + s@,
            StorageError::Backend(s) => "backend error: "@ + s@,
            StorageError::Malformed(s) => "malformed data: "@ + s@,
        }
    }

    /// The human-readable message of the error (what `Display` shows).
    pub fn message(&self) -> (r: String)
        ensures
            r@ == self.spec_message(),
    {
        match self {
            StorageError::NotFound(s) => concat_str("not found: ", s.as_str()),
            StorageError::Backend(s) => concat_str("backend error: ", s.as_str()),
            StorageError::Malformed(s) => concat_str("malformed data: ", s.as_str()),
        }
    }
}

/// Metadata for one entry in the version history.
#[derive(Debug, Clone, PartialEq, Eq)]
pub struct VersionMeta {
    /// Auto-incrementing version number. Larger = more recent.
    pub version: u64,
    /// Unix milliseconds when the version was saved.
    pub created_at: i64,
    /// Operator-supplied note.
    pub note: Option<String>,
}

/// The views of an optional string.
pub open spec fn opt_string_view(o: Option<String>) -> Option<Seq<char>> {
    match o {
        Some(s) => Some(s@),
        None => None,
    }
}

/// The views of an optional string slice.
pub open spec fn opt_str_view(o: Option<&str>) -> Option<Seq<char>> {
    match o {
        Some(s) => Some(s@),
        None => None,
    }
}

/// The mathematical content of a [`VersionMeta`].
pub struct MetaView {
    pub version: u64,
    pub created_at: i64,
    pub note: Option<Seq<char>>,
}

impl View for VersionMeta {
    type V = MetaView;

    open spec fn view(&self) -> MetaView {
        MetaView { version: self.version, created_at: self.created_at, note: opt_string_view(self.note) }
    }
}

/// One saved config version in the model: its metadata and its blob.
pub struct VersionRecord {
    pub meta: MetaView,
    pub blob: Seq<u8>,
}

/// The mathematical state of a store.
pub struct StoreModel {
    /// Saved versions, oldest first.
    pub versions: Seq<VersionRecord>,
    /// The active-version pointer.
    pub active: Option<u64>,
    /// The block log, oldest first, with the ids the store assigned.
    pub log: Seq<LogRecord>,
    /// Key/value settings.
    pub settings: Map<Seq<char>, Seq<char>>,
}

/// The blob of the first saved version numbered `v` at index `i` or later.
pub open spec fn blob_from(vs: Seq<VersionRecord>, v: u64, i: int) -> Option<Seq<u8>>
    decreases vs.len() - i,
{
    if i < 0 || i >= vs.len() {
        None
    } else if vs[i].meta.version == v {
        Some(vs[i].blob)
    } else {
        blob_from(vs, v, i + 1)
    }
}

/// Whether `k` is in the (ASCII/Unicode exact) list `s`.
pub open spec fn seq_has<T>(s: Seq<T>, k: T) -> bool {
    exists|i: int| 0 <= i < s.len() && s[i] == k
}

/// Whether a log entry passes every constraint of a [`LogFilter`].
pub open spec fn entry_matches(e: LogRecord, f: LogFilterView) -> bool {
    &&& (f.services.len() == 0 || seq_has(f.services, e.service))
    &&& (f.directions.len() == 0 || seq_has(f.directions, e.direction))
    &&& (f.kinds.len() == 0 || seq_has(f.kinds, e.rule_kind))
    &&& (f.filter_id matches Some(id) ==> id == e.filter_id)
    &&& (f.dry_run_only matches Some(d) ==> d == e.dry_run)
    &&& (f.search matches Some(n) ==> search_hit(e, n))
    &&& (f.since_ms matches Some(s) ==> e.ts >= s)
    &&& (f.until_ms matches Some(u) ==> e.ts < u)
}

/// Case-insensitive (Unicode lower-case) substring match of `needle` against
/// the entry's reason or its (lossily decoded) sample.
pub open spec fn search_hit(e: LogRecord, needle: Seq<char>) -> bool {
    let n = unicode_lowercase(needle);
    seq_contains(unicode_lowercase(e.reason), n) || seq_contains(
        unicode_lowercase(utf8_lossy(e.sample)),
        n,
    )
}

/// The entries of `log[i..]` that match `f`, newest first.
pub open spec fn matches_newest_first(log: Seq<LogRecord>, f: LogFilterView, i: int) -> Seq<
    LogRecord,
>
    decreases log.len() - i,
{
    if i < 0 || i >= log.len() {
        Seq::empty()
    } else {
        let rest = matches_newest_first(log, f, i + 1);
        if entry_matches(log[i], f) {
            rest.push(log[i])
        } else {
            rest
        }
    }
}

/// What `query_log(filter, limit)` returns: the matching entries, newest
/// first, at most `limit` of them.
pub open spec fn query_spec(log: Seq<LogRecord>, f: LogFilterView, limit: nat) -> Seq<LogRecord> {
    let all = matches_newest_first(log, f, 0);
    if all.len() <= limit {
        all
    } else {
        all.take(limit as int)
    }
}

impl StoreModel {
    /// The model of a fresh, empty store.
    pub open spec fn empty() -> StoreModel {
        StoreModel {
            versions: Seq::empty(),
            active: None,
            log: Seq::empty(),
            settings: Map::empty(),
        }
    }

    /// The number the next saved version receives.
    pub open spec fn next_version(self) -> nat {
        self.versions.len() + 1
    }

    /// The blob saved as version `v`, if any.
    pub open spec fn version_blob(self, v: u64) -> Option<Seq<u8>> {
        blob_from(self.versions, v, 0)
    }

    /// Whether version `v` has been saved.
    pub open spec fn has_version(self, v: u64) -> bool {
        self.version_blob(v) is Some
    }

    /// `self` is `old` with one more version saved, holding `blob` and `note`.
    pub open spec fn saved_from(self, old: StoreModel, blob: Seq<u8>, note: Option<Seq<char>>) -> bool {
        &&& self.versions.len() == old.versions.len() + 1
        &&& self.versions.subrange(0, old.versions.len() as int) == old.versions
        &&& self.versions.last().meta.version == old.next_version()
        &&& self.versions.last().meta.note == note
        &&& self.versions.last().blob == blob
        &&& self.active == old.active
        &&& self.log == old.log
        &&& self.settings == old.settings
    }

    /// The version list, newest first.
    pub open spec fn metas_newest_first(self) -> Seq<MetaView> {
        self.versions.reverse().map_values(|r: VersionRecord| r.meta)
    }

    /// `self` is `old` with `entry` appended to the log under the next id.
    pub open spec fn appended_from(self, old: StoreModel, entry: LogRecord) -> bool {
        &&& self.log == old.log.push(LogRecord { id: Some((old.log.len() + 1) as u64), ..entry })
        &&& self.versions == old.versions
        &&& self.active == old.active
        &&& self.settings == old.settings
    }
}

/// Whether `r` is a failure of the backend itself (`Backend` or
/// `Malformed`), as opposed to a success or a `NotFound` answer.
pub open spec fn backend_failed<T>(r: Result<T, StorageError>) -> bool {
    match r {
        Err(StorageError::Backend(_)) => true,
        Err(StorageError::Malformed(_)) => true,
        _ => false,
    }
}

/// Persistent storage for Minos: versioned config blobs, the active-version
/// pointer, the rolling block log, and key/value settings.
///
/// Every method either succeeds with the effect its contract states or fails
/// without changing the store (atomicity). Backend failures may occur on any
/// call, unless the backend declares that it never fails; a `NotFound` error
/// is returned exactly when the thing asked for is missing.
///
/// The contracts speak of a backend through `model` and `wf`. Their defaults
/// (an empty model that is not well formed) let a backend written outside
/// this crate implement only the executable methods; the method contracts,
/// which all require `wf`, then promise nothing of it. The backends of this
/// crate define both and are verified against the contracts.
pub trait Storage {
    /// The mathematical state of the store.
    open spec fn model(&self) -> StoreModel {
        StoreModel::empty()
    }

    /// The backend's own well-formedness; the contracts below hold of a
    /// backend only while it holds.
    open spec fn wf(&self) -> bool {
        false
    }

    /// Whether the backend can fail on its own (`Backend` or `Malformed`
    /// errors): an in-memory store cannot, a database can.
    open spec fn never_fails(&self) -> bool {
        false
    }

    /// Persist a new config blob with an optional note. Returns the assigned
    /// version number.
    fn save_version(&mut self, blob: &[u8], note: Option<&str>) -> (r: Result<u64, StorageError>)
        requires
            old(self).wf(),
            old(self).model().versions.len() < u64::MAX,
        ensures
            final(self).never_fails() == old(self).never_fails(),
            old(self).never_fails() ==> !backend_failed(r),
            final(self).wf(),
            match r {
                Ok(v) => v == old(self).model().next_version() && final(self).model().saved_from(
                    old(self).model(),
                    blob@,
                    opt_str_view(note),
                ),
                Err(e) => e is Backend && final(self).model() == old(self).model(),
            },
    ;

    /// Retrieve a previously saved config blob.
    fn load_version(&self, version: u64) -> (r: Result<Vec<u8>, StorageError>)
        requires
            self.wf(),
        ensures
            self.never_fails() ==> !backend_failed(r),
            match r {
                Ok(b) => self.model().version_blob(version) == Some(b@),
                Err(StorageError::NotFound(_)) => self.model().version_blob(version) is None,
                Err(e) => e is Backend,
            },
    ;

    /// List all saved versions, newest first.
    fn list_versions(&self) -> (r: Result<Vec<VersionMeta>, StorageError>)
        requires
            self.wf(),
        ensures
            self.never_fails() ==> !backend_failed(r),
            match r {
                Ok(metas) => metas@.map_values(|m: VersionMeta| m@)
                    == self.model().metas_newest_first(),
                Err(e) => e is Backend,
            },
    ;

    /// The version the active-version pointer designates.
    fn active_version(&self) -> (r: Result<u64, StorageError>)
        requires
            self.wf(),
        ensures
            self.never_fails() ==> !backend_failed(r),
            match r {
                Ok(v) => self.model().active == Some(v),
                Err(StorageError::NotFound(_)) => self.model().active is None,
                Err(e) => e is Backend,
            },
    ;

    /// Atomically set the active-version pointer to a saved version.
    fn set_active_version(&mut self, version: u64) -> (r: Result<(), StorageError>)
        requires
            old(self).wf(),
        ensures
            final(self).never_fails() == old(self).never_fails(),
            old(self).never_fails() ==> !backend_failed(r),
            final(self).wf(),
            match r {
                Ok(_) => old(self).model().has_version(version) && final(self).model() == (
                StoreModel { active: Some(version), ..old(self).model() }),
                Err(StorageError::NotFound(_)) => !old(self).model().has_version(version)
                    && final(self).model() == old(self).model(),
                Err(e) => e is Backend && final(self).model() == old(self).model(),
            },
    ;

    /// Append a log entry; the store assigns its id.
    fn append_log(&mut self, entry: &LogEntry) -> (r: Result<(), StorageError>)
        requires
            old(self).wf(),
            old(self).model().log.len() + 1 < u64::MAX,
        ensures
            final(self).never_fails() == old(self).never_fails(),
            old(self).never_fails() ==> !backend_failed(r),
            final(self).wf(),
            match r {
                Ok(_) => final(self).model().appended_from(old(self).model(), entry@),
                Err(e) => e is Backend && final(self).model() == old(self).model(),
            },
    ;

    /// Query the block log: at most `limit` matching rows, newest first.
    fn query_log(&self, filter: &LogFilter, limit: usize) -> (r: Result<Vec<LogEntry>, StorageError>)
        requires
            self.wf(),
        ensures
            self.never_fails() ==> !backend_failed(r),
            match r {
                Ok(rows) => rows@.map_values(|e: LogEntry| e@) == query_spec(
                    self.model().log,
                    filter@,
                    limit as nat,
                ),
                Err(e) => e is Backend || e is Malformed,
            },
    ;

    /// A setting value by key, or `None` if unset.
    fn get_setting(&self, key: &str) -> (r: Result<Option<String>, StorageError>)
        requires
            self.wf(),
        ensures
            self.never_fails() ==> !backend_failed(r),
            match r {
                Ok(v) => opt_string_view(v) == (if self.model().settings.contains_key(key@) {
                    Some(self.model().settings[key@])
                } else {
                    None
                }),
                Err(e) => e is Backend,
            },
    ;

    /// Set a setting value by key (overwriting any existing value).
    fn set_setting(&mut self, key: &str, value: &str) -> (r: Result<(), StorageError>)
        requires
            old(self).wf(),
        ensures
            final(self).never_fails() == old(self).never_fails(),
            old(self).never_fails() ==> !backend_failed(r),
            final(self).wf(),
            match r {
                Ok(_) => final(self).model() == (StoreModel {
                    settings: old(self).model().settings.insert(key@, value@),
                    ..old(self).model()
                }),
                Err(e) => e is Backend && final(self).model() == old(self).model(),
            },
    ;
}

} // verus!
