//! What every [`Storage`](crate::storage::Storage) backend's contract
//! implies across calls: versions are numbered 1, 2, 3, ... and read back
//! as saved, the version list runs newest first, settings read back as set,
//! and a log query returns matching entries of the log, newest first, within
//! the limit.

use vstd::prelude::*;
use crate::log_entry::{LogFilterView, LogRecord};
use crate::text::{seq_contains, unicode_lowercase, utf8_lossy};
use crate::storage::{
    StoreModel,
    VersionRecord,
    blob_from,
    entry_matches,
    matches_newest_first,
    query_spec,
};

verus! {

impl StoreModel {
    /// Saved versions carry the numbers 1, 2, 3, ... in order.
    pub open spec fn numbered(self) -> bool {
        forall|i: int| 0 <= i < self.versions.len() ==> (#[trigger] self.versions[i]).meta.version == i + 1
    }

    /// The log's ids are 1, 2, 3, ... in order.
    pub open spec fn log_numbered(self) -> bool {
        forall|i: int| 0 <= i < self.log.len() ==> (#[trigger] self.log[i]).id == Some((i + 1) as u64)
    }
}

/// Looking a version up in a numbered list finds the entry at its index.
proof fn lemma_blob_from_numbered(vs: Seq<VersionRecord>, v: u64, i: int)
    requires
        0 <= i,
        forall|k: int| 0 <= k < vs.len() ==> (#[trigger] vs[k]).meta.version == k + 1,
    ensures
        blob_from(vs, v, i) == (if i + 1 <= v <= vs.len() {
            Some(vs[v - 1].blob)
        } else {
            None::<Seq<u8>>
        }),
    decreases vs.len() - i,
{
    if i < vs.len() {
        lemma_blob_from_numbered(vs, v, i + 1);
    }
}

/// A fresh store is numbered, and so is its (empty) log.
pub proof fn law_empty_store_is_numbered()
    ensures
        StoreModel::empty().numbered(),
        StoreModel::empty().log_numbered(),
{
}

/// Saving a version into a numbered store gives it the next number (one
/// more than the number of versions so far), keeps the store numbered, reads
/// back the saved blob under that number, and leaves every other version as
/// it was.
pub proof fn law_saved_version_reads_back(
    old: StoreModel,
    new: StoreModel,
    blob: Seq<u8>,
    note: Option<Seq<char>>,
    other: u64,
)
    requires
        old.numbered(),
        new.saved_from(old, blob, note),
        other != old.next_version(),
    ensures
        new.numbered(),
        new.version_blob(old.next_version() as u64) == Some(blob),
        new.version_blob(other) == old.version_blob(other),
        !old.has_version(old.next_version() as u64),
{
    assert forall|i: int| 0 <= i < new.versions.len() implies (
    #[trigger] new.versions[i]).meta.version == i + 1 by {
        if i < old.versions.len() {
            assert(new.versions[i] == new.versions.subrange(0, old.versions.len() as int)[i]);
        }
    }
    lemma_blob_from_numbered(new.versions, old.next_version() as u64, 0);
    lemma_blob_from_numbered(new.versions, other, 0);
    lemma_blob_from_numbered(old.versions, other, 0);
    lemma_blob_from_numbered(old.versions, old.next_version() as u64, 0);
    if 1 <= other <= old.versions.len() {
        assert(new.versions[other - 1] == new.versions.subrange(0, old.versions.len() as int)[other
            - 1]);
    }
}

/// In a numbered store the version list runs newest first: entry `k` of the
/// list is version `n - k` of `n`.
pub proof fn law_versions_listed_newest_first(m: StoreModel, k: int)
    requires
        m.numbered(),
        0 <= k < m.versions.len(),
    ensures
        m.metas_newest_first().len() == m.versions.len(),
        m.metas_newest_first()[k].version == m.versions.len() - k,
{
    assert(m.versions.reverse()[k] == m.versions[m.versions.len() - 1 - k]);
}

/// A setting reads back as the value last set for its key, and setting one
/// key leaves the others alone.
pub proof fn law_setting_reads_back(m: StoreModel, key: Seq<char>, value: Seq<char>, other: Seq<char>)
    requires
        other != key,
    ensures
        ({
            let n = StoreModel { settings: m.settings.insert(key, value), ..m };
            &&& n.settings.contains_key(key)
            &&& n.settings[key] == value
            &&& n.settings.contains_key(other) == m.settings.contains_key(other)
            &&& n.settings.contains_key(other) ==> n.settings[other] == m.settings[other]
        }),
{
}

/// Appending to a log numbered from 1 gives the entry the next id and keeps
/// the log numbered.
pub proof fn law_append_assigns_next_id(old: StoreModel, new: StoreModel, entry: LogRecord)
    requires
        old.log_numbered(),
        new.appended_from(old, entry),
    ensures
        new.log_numbered(),
        new.log.last().id == Some((old.log.len() + 1) as u64),
        new.log.len() == old.log.len() + 1,
{
    assert forall|i: int| 0 <= i < new.log.len() implies (#[trigger] new.log[i]).id == Some(
        (i + 1) as u64,
    ) by {
        if i < old.log.len() {
            assert(new.log[i] == old.log[i]);
        }
    }
}

/// What the scan from `i` on returns: entries of `log[i..]` that match,
/// with indexes decreasing from one to the next.
proof fn lemma_matches_shape(log: Seq<LogRecord>, f: LogFilterView, i: int)
    requires
        0 <= i,
    ensures
        ({
            let r = matches_newest_first(log, f, i);
            &&& r.len() <= log.len() - i || (i >= log.len() && r.len() == 0)
            &&& forall|k: int|
                0 <= k < r.len() ==> exists|j: int|
                    i <= j < log.len() && log[j] == #[trigger] r[k] && entry_matches(log[j], f)
        }),
    decreases log.len() - i,
{
    if i < log.len() {
        lemma_matches_shape(log, f, i + 1);
        let rest = matches_newest_first(log, f, i + 1);
        let r = matches_newest_first(log, f, i);
        assert forall|k: int| 0 <= k < r.len() implies exists|j: int|
            i <= j < log.len() && log[j] == #[trigger] r[k] && entry_matches(log[j], f) by {
            if k < rest.len() {
                assert(r[k] == rest[k]);
                let j = choose|j: int|
                    i + 1 <= j < log.len() && log[j] == #[trigger] rest[k] && entry_matches(
                        log[j],
                        f,
                    );
                assert(log[j] == r[k]);
            } else {
                assert(r[k] == log[i]);
            }
        }
    }
}

/// Ids in a numbered log decrease along the scan's result: newest first.
proof fn lemma_matches_newest_first(log: Seq<LogRecord>, f: LogFilterView, i: int)
    requires
        0 <= i,
        log.len() < u64::MAX,
        forall|j: int| 0 <= j < log.len() ==> (#[trigger] log[j]).id == Some((j + 1) as u64),
    ensures
        ({
            let r = matches_newest_first(log, f, i);
            &&& forall|k: int|
                0 <= k < r.len() ==> (#[trigger] r[k]).id is Some && i + 1 <= r[k].id->0 <= log.len()
            &&& forall|a: int, b: int| 0 <= a < b < r.len() ==> r[a].id->0 > r[b].id->0
        }),
    decreases log.len() - i,
{
    if i < log.len() {
        lemma_matches_newest_first(log, f, i + 1);
        let rest = matches_newest_first(log, f, i + 1);
        let r = matches_newest_first(log, f, i);
        if entry_matches(log[i], f) {
            assert(r == rest.push(log[i]));
            assert forall|k: int| 0 <= k < r.len() implies (#[trigger] r[k]).id is Some && i + 1
                <= r[k].id->0 <= log.len() by {
                if k < rest.len() {
                    assert(r[k] == rest[k]);
                } else {
                    assert(r[k] == log[i]);
                    assert(log[i].id == Some((i + 1) as u64));
                }
            }
            assert forall|a: int, b: int| 0 <= a < b < r.len() implies r[a].id->0 > r[b].id->0 by {
                assert(r[a] == rest[a]);
                if b < rest.len() {
                    assert(r[b] == rest[b]);
                } else {
                    assert(r[b] == log[i]);
                    assert(log[i].id == Some((i + 1) as u64));
                    assert(rest[a].id->0 >= i + 2);
                }
            }
        }
    }
}

/// `e` is an entry of `log` that matches `f`.
pub open spec fn logged_match(log: Seq<LogRecord>, f: LogFilterView, e: LogRecord) -> bool {
    exists|j: int| 0 <= j < log.len() && log[j] == e && entry_matches(log[j], f)
}

/// A log query returns only entries of the log that match the filter, at
/// most `limit` of them, and, on a log numbered from 1 (with ids that fit a
/// `u64`), newest first: ids strictly decreasing.
pub proof fn law_query_is_filtered_bounded_newest_first(
    m: StoreModel,
    f: LogFilterView,
    limit: nat,
)
    ensures
        query_spec(m.log, f, limit).len() <= limit,
        forall|k: int|
            0 <= k < query_spec(m.log, f, limit).len() ==> logged_match(
                m.log,
                f,
                #[trigger] query_spec(m.log, f, limit)[k],
            ),
        m.log_numbered() && m.log.len() < u64::MAX ==> forall|a: int, b: int|
            0 <= a < b < query_spec(m.log, f, limit).len() ==> (#[trigger] query_spec(
                m.log,
                f,
                limit,
            )[a]).id->0 > (#[trigger] query_spec(m.log, f, limit)[b]).id->0,
{
    lemma_matches_shape(m.log, f, 0);
    let all = matches_newest_first(m.log, f, 0);
    let r = query_spec(m.log, f, limit);
    assert forall|k: int| 0 <= k < r.len() implies logged_match(m.log, f, #[trigger] r[k]) by {
        assert(r[k] == all[k]);
        let j = choose|j: int|
            0 <= j < m.log.len() && m.log[j] == #[trigger] all[k] && entry_matches(m.log[j], f);
        assert(m.log[j] == r[k]);
    }
    if m.log_numbered() && m.log.len() < u64::MAX {
        lemma_matches_newest_first(m.log, f, 0);
        assert forall|a: int, b: int| 0 <= a < b < r.len() implies r[a].id->0 > r[b].id->0 by {
            assert(r[a] == all[a]);
            assert(r[b] == all[b]);
        }
    }
}

/// Every entry that the scan from `i` on may return and that matches is in
/// its result.
proof fn lemma_matches_include(log: Seq<LogRecord>, f: LogFilterView, i: int, j: int)
    requires
        0 <= i <= j < log.len(),
        entry_matches(log[j], f),
    ensures
        matches_newest_first(log, f, i).contains(log[j]),
    decreases log.len() - i,
{
    let r = matches_newest_first(log, f, i);
    if i == j {
        assert(r.last() == log[j]);
        assert(r[r.len() - 1] == log[j]);
    } else {
        lemma_matches_include(log, f, i + 1, j);
        let rest = matches_newest_first(log, f, i + 1);
        let k = choose|k: int| 0 <= k < rest.len() && rest[k] == log[j];
        if entry_matches(log[i], f) {
            assert(r[k] == rest[k]);
        }
        assert(r[k] == log[j]);
    }
}

/// Every entry a log query returns is an entry of the log that meets every
/// constraint of the filter: its service, direction and kind are among the
/// listed ones (when a list is given), its filter id and dry-run flag are
/// the ones asked for, its reason or its (lossily decoded) sample contains
/// the search text up to Unicode case, and its time lies in the window.
pub proof fn law_query_results_meet_the_filter(
    log: Seq<LogRecord>,
    f: LogFilterView,
    limit: nat,
    k: int,
)
    requires
        0 <= k < query_spec(log, f, limit).len(),
    ensures
        ({
            let e = query_spec(log, f, limit)[k];
            &&& exists|j: int| 0 <= j < log.len() && #[trigger] log[j] == e
            &&& f.services.len() > 0 ==> exists|j: int|
                0 <= j < f.services.len() && #[trigger] f.services[j] == e.service
            &&& f.directions.len() > 0 ==> exists|j: int|
                0 <= j < f.directions.len() && #[trigger] f.directions[j] == e.direction
            &&& f.kinds.len() > 0 ==> exists|j: int|
                0 <= j < f.kinds.len() && #[trigger] f.kinds[j] == e.rule_kind
            &&& f.filter_id matches Some(id) ==> e.filter_id == id
            &&& f.dry_run_only matches Some(d) ==> e.dry_run == d
            &&& f.search matches Some(n) ==> (seq_contains(
                unicode_lowercase(e.reason),
                unicode_lowercase(n),
            ) || seq_contains(unicode_lowercase(utf8_lossy(e.sample)), unicode_lowercase(n)))
            &&& f.since_ms matches Some(t) ==> e.ts >= t
            &&& f.until_ms matches Some(t) ==> e.ts < t
        }),
{
    lemma_matches_shape(log, f, 0);
    let all = matches_newest_first(log, f, 0);
    let r = query_spec(log, f, limit);
    assert(r[k] == all[k]);
    let j = choose|j: int| 0 <= j < log.len() && log[j] == #[trigger] all[k] && entry_matches(log[j], f);
    assert(log[j] == r[k]);
    assert(entry_matches(r[k], f));
}

/// A log query that returns fewer entries than its limit returns every entry
/// of the log that meets every constraint of the filter (as listed for
/// [`law_query_results_meet_the_filter`]).
pub proof fn law_query_misses_nothing_below_limit(
    log: Seq<LogRecord>,
    f: LogFilterView,
    limit: nat,
    j: int,
)
    requires
        query_spec(log, f, limit).len() < limit,
        0 <= j < log.len(),
        f.services.len() > 0 ==> exists|i: int| 0 <= i < f.services.len() && #[trigger] f.services[i] == log[j].service,
        f.directions.len() > 0 ==> exists|i: int| 0 <= i < f.directions.len() && #[trigger] f.directions[i] == log[j].direction,
        f.kinds.len() > 0 ==> exists|i: int| 0 <= i < f.kinds.len() && #[trigger] f.kinds[i] == log[j].rule_kind,
        f.filter_id matches Some(id) ==> log[j].filter_id == id,
        f.dry_run_only matches Some(d) ==> log[j].dry_run == d,
        f.search matches Some(n) ==> (seq_contains(
            unicode_lowercase(log[j].reason),
            unicode_lowercase(n),
        ) || seq_contains(unicode_lowercase(utf8_lossy(log[j].sample)), unicode_lowercase(n))),
        f.since_ms matches Some(t) ==> log[j].ts >= t,
        f.until_ms matches Some(t) ==> log[j].ts < t,
    ensures
        query_spec(log, f, limit).contains(log[j]),
{
    assert(entry_matches(log[j], f));
    lemma_matches_include(log, f, 0, j);
}

} // verus!
