//! In-memory storage backend.

use vstd::prelude::*;
use crate::clock::now_ms;
use crate::log_entry::{LogEntry, LogFilter, LogFilterView, LogRecord};
use crate::storage::{
    Storage, StorageError, VersionMeta, VersionRecord, StoreModel, blob_from, entry_matches,
    search_hit, seq_has, matches_newest_first,
};
use crate::decimal::{dec_digits, decimal_string};
use crate::text::{str_eq, bytes_to_vec, str_contains, str_to_lowercase, bytes_to_string_lossy, concat_str, string_of};

verus! {

struct VersionRow {
    meta: VersionMeta,
    blob: Vec<u8>,
}

/// In-memory `Storage` implementation. State is lost when the value is dropped.
pub struct InMemoryStorage {
    versions: Vec<VersionRow>,
    active: Option<u64>,
    log: Vec<LogEntry>,
    next_log_id: u64,
    settings: Vec<(String, String)>,
}

/// The settings map that a list of distinct-keyed pairs stands for.
pub open spec fn pairs_map(s: Seq<(String, String)>) -> Map<Seq<char>, Seq<char>>
    decreases s.len(),
{
    if s.len() == 0 {
        Map::empty()
    } else {
        pairs_map(s.drop_last()).insert(s.last().0@, s.last().1@)
    }
}

/// No two pairs share a key.
pub open spec fn keys_distinct(s: Seq<(String, String)>) -> bool {
    forall|i: int, j: int| 0 <= i < s.len() && 0 <= j < s.len() && i != j ==> s[i].0@ != s[j].0@
}

proof fn lemma_pairs_map(s: Seq<(String, String)>)
    requires
        keys_distinct(s),
    ensures
        forall|k: Seq<char>| #[trigger]
            pairs_map(s).contains_key(k) <==> exists|i: int| 0 <= i < s.len() && s[i].0@ == k,
        forall|i: int| 0 <= i < s.len() ==> #[trigger] pairs_map(s)[s[i].0@] == s[i].1@,
    decreases s.len(),
{
    if s.len() > 0 {
        let p = s.drop_last();
        assert(keys_distinct(p));
        lemma_pairs_map(p);
        assert forall|k: Seq<char>| #[trigger]
            pairs_map(s).contains_key(k) <==> exists|i: int| 0 <= i < s.len() && s[i].0@ == k by {
            if pairs_map(s).contains_key(k) {
                if k == s.last().0@ {
                    assert(s[s.len() - 1].0@ == k);
                } else {
                    assert(pairs_map(p).contains_key(k));
                    let i = choose|i: int| 0 <= i < p.len() && p[i].0@ == k;
                    assert(s[i].0@ == k);
                }
            }
            if exists|i: int| 0 <= i < s.len() && s[i].0@ == k {
                let i = choose|i: int| 0 <= i < s.len() && s[i].0@ == k;
                if i < s.len() - 1 {
                    assert(p[i].0@ == k);
                    assert(pairs_map(p).contains_key(k));
                }
            }
        }
        assert forall|i: int| 0 <= i < s.len() implies #[trigger] pairs_map(s)[s[i].0@] == s[i].1@ by {
            if i < s.len() - 1 {
                assert(p[i] == s[i]);
                assert(s[i].0@ != s[s.len() - 1].0@);
                assert(pairs_map(p)[p[i].0@] == p[i].1@);
            }
        }
    }
}

impl InMemoryStorage {
    /// Create a fresh, empty in-memory store.
    pub fn new() -> (r: Self)
        ensures
            r.wf(),
            r.model() == StoreModel::empty(),
    {
        let r = InMemoryStorage {
            versions: Vec::new(),
            active: None,
            log: Vec::new(),
            next_log_id: 0,
            settings: Vec::new(),
        };
        assert(r.model().versions =~= Seq::<VersionRecord>::empty());
        assert(r.model().log =~= Seq::<LogRecord>::empty());
        r
    }
}

impl Default for InMemoryStorage {
    fn default() -> (r: Self)
        ensures
            r.wf(),
            r.model() == StoreModel::empty(),
    {
        InMemoryStorage::new()
    }
}

/// Whether a log entry passes every constraint of a filter.
pub fn matches_filter(e: &LogEntry, f: &LogFilter) -> (r: bool)
    ensures
        r == entry_matches(e@, f@),
{
    if f.services.len() > 0 {
        let mut hit = false;
        let mut j: usize = 0;
        while j < f.services.len()
            invariant
                j <= f.services@.len(),
                hit == exists|k: int| 0 <= k < j && f.services@[k]@ == e.service@,
            decreases f.services.len() - j,
        {
            if f.services[j] == e.service {
                hit = true;
            }
            j += 1;
        }
        assert(hit == seq_has(f@.services, e@.service)) by {
            if hit {
                let k = choose|k: int| 0 <= k < f.services@.len() && f.services@[k]@ == e.service@;
                assert(f@.services[k] == e@.service);
            }
            if seq_has(f@.services, e@.service) {
                let k = choose|k: int| 0 <= k < f@.services.len() && f@.services[k] == e@.service;
                assert(f.services@[k]@ == e.service@);
            }
        }
        if !hit {
            return false;
        }
    }
    if f.directions.len() > 0 {
        let mut hit = false;
        let mut j: usize = 0;
        while j < f.directions.len()
            invariant
                j <= f.directions@.len(),
                hit == exists|k: int| 0 <= k < j && f.directions@[k] == e.direction,
            decreases f.directions.len() - j,
        {
            if f.directions[j] == e.direction {
                hit = true;
            }
            j += 1;
        }
        if !hit {
            return false;
        }
    }
    if f.kinds.len() > 0 {
        let mut hit = false;
        let mut j: usize = 0;
        while j < f.kinds.len()
            invariant
                j <= f.kinds@.len(),
                hit == exists|k: int| 0 <= k < j && f.kinds@[k]@ == e.rule_kind@,
            decreases f.kinds.len() - j,
        {
            if f.kinds[j] == e.rule_kind {
                hit = true;
            }
            j += 1;
        }
        assert(hit == seq_has(f@.kinds, e@.rule_kind)) by {
            if hit {
                let k = choose|k: int| 0 <= k < f.kinds@.len() && f.kinds@[k]@ == e.rule_kind@;
                assert(f@.kinds[k] == e@.rule_kind);
            }
            if seq_has(f@.kinds, e@.rule_kind) {
                let k = choose|k: int| 0 <= k < f@.kinds.len() && f@.kinds[k] == e@.rule_kind;
                assert(f.kinds@[k]@ == e.rule_kind@);
            }
        }
        if !hit {
            return false;
        }
    }
    if let Some(id) = f.filter_id {
        if id != e.filter_id {
            return false;
        }
    }
    if let Some(want_dry) = f.dry_run_only {
        if want_dry != e.dry_run {
            return false;
        }
    }
    if let Some(needle) = &f.search {
        let needle_l = str_to_lowercase(needle.as_str());
        let reason_l = str_to_lowercase(e.reason.as_str());
        let in_reason = str_contains(reason_l.as_str(), needle_l.as_str());
        let sample_s = bytes_to_string_lossy(e.sample.as_slice());
        let sample_l = str_to_lowercase(sample_s.as_str());
        let in_sample = str_contains(sample_l.as_str(), needle_l.as_str());
        assert(search_hit(e@, needle@) == (in_reason || in_sample));
        if !in_reason && !in_sample {
            return false;
        }
    }
    if let Some(since) = f.since_ms {
        if e.ts < since {
            return false;
        }
    }
    if let Some(until) = f.until_ms {
        if e.ts >= until {
            return false;
        }
    }
    true
}

proof fn lemma_newest_first_prefix(log: Seq<LogRecord>, f: LogFilterView, j: int, i: int)
    requires
        0 <= j <= i,
    ensures
        matches_newest_first(log, f, i).len() <= matches_newest_first(log, f, j).len(),
        matches_newest_first(log, f, j).subrange(0, matches_newest_first(log, f, i).len() as int)
            == matches_newest_first(log, f, i),
    decreases i - j,
{
    if j < i {
        lemma_newest_first_prefix(log, f, j + 1, i);
        let a = matches_newest_first(log, f, j + 1);
        let b = matches_newest_first(log, f, i);
        if j < log.len() && entry_matches(log[j], f) {
            assert(matches_newest_first(log, f, j) == a.push(log[j]));
            assert(a.push(log[j]).subrange(0, b.len() as int) =~= a.subrange(0, b.len() as int));
        }
    }
}

impl Storage for InMemoryStorage {
    closed spec fn model(&self) -> StoreModel {
        StoreModel {
            versions: self.versions@.map_values(
                |r: VersionRow| VersionRecord { meta: r.meta@, blob: r.blob@ },
            ),
            active: self.active,
            log: self.log@.map_values(|e: LogEntry| e@),
            settings: pairs_map(self.settings@),
        }
    }

    closed spec fn wf(&self) -> bool {
        &&& forall|i: int| 0 <= i < self.versions@.len() ==> #[trigger] self.versions@[i].meta.version
            == i + 1
        &&& self.next_log_id == self.log@.len()
        &&& keys_distinct(self.settings@)
    }

    open spec fn never_fails(&self) -> bool {
        true
    }

    fn save_version(&mut self, blob: &[u8], note: Option<&str>) -> (r: Result<u64, StorageError>)
        ensures
            r is Ok,
    {
        let last = match self.versions.last() {
            Some(row) => row.meta.version,
            None => 0,
        };
        let next = last + 1;
        let note_owned = match note {
            Some(s) => Some(s.to_owned()),
            None => None,
        };
        let row = VersionRow {
            meta: VersionMeta { version: next, created_at: now_ms(), note: note_owned },
            blob: bytes_to_vec(blob),
        };
        let ghost old_model = self.model();
        self.versions.push(row);
        assert(self.model().versions.subrange(0, old_model.versions.len() as int)
            =~= old_model.versions);
        Ok(next)
    }

    fn load_version(&self, version: u64) -> (r: Result<Vec<u8>, StorageError>)
        ensures
            r is Err <==> self.model().version_blob(version) is None,
            r is Err ==> (r matches Err(StorageError::NotFound(m)) && m@ == "version "@ + dec_digits(
                version as nat,
            )),
    {
        let mut i: usize = 0;
        while i < self.versions.len()
            invariant
                i <= self.versions@.len(),
                self.model().version_blob(version) == blob_from(self.model().versions, version, i as int),
            decreases self.versions.len() - i,
        {
            if self.versions[i].meta.version == version {
                return Ok(bytes_to_vec(self.versions[i].blob.as_slice()));
            }
            i += 1;
        }
        Err(StorageError::NotFound(concat_str("version ", decimal_string(version).as_str())))
    }

    fn list_versions(&self) -> (r: Result<Vec<VersionMeta>, StorageError>)
        ensures
            r is Ok,
    {
        let mut metas: Vec<VersionMeta> = Vec::new();
        let ghost vs = self.model().versions;
        let n = self.versions.len();
        let mut i: usize = n;
        while i > 0
            invariant
                n == self.versions@.len(),
                vs == self.model().versions,
                vs.len() == n,
                i <= n,
                metas@.len() == n - i,
                forall|k: int| 0 <= k < metas@.len() ==> #[trigger] metas@[k]@ == vs[n - 1 - k].meta,
            decreases i,
        {
            i -= 1;
            let m = &self.versions[i].meta;
            let note = match &m.note {
                Some(s) => Some(s.clone()),
                None => None,
            };
            metas.push(VersionMeta { version: m.version, created_at: m.created_at, note });
        }
        assert(metas@.map_values(|m: VersionMeta| m@) =~= vs.reverse().map_values(
            |r: VersionRecord| r.meta,
        ));
        Ok(metas)
    }

    fn active_version(&self) -> (r: Result<u64, StorageError>)
        ensures
            r is Err <==> self.model().active is None,
            r is Err ==> (r matches Err(StorageError::NotFound(m)) && m@ == "no active version"@),
    {
        match self.active {
            Some(v) => Ok(v),
            None => {
                proof {
                    reveal_strlit("no active version");
                }
                Err(StorageError::NotFound(string_of("no active version")))
            },
        }
    }

    fn set_active_version(&mut self, version: u64) -> (r: Result<(), StorageError>)
        ensures
            r is Err <==> !old(self).model().has_version(version),
            r is Err ==> (r matches Err(StorageError::NotFound(m)) && m@ == "version "@ + dec_digits(
                version as nat,
            )),
    {
        let mut i: usize = 0;
        while i < self.versions.len()
            invariant
                i <= self.versions@.len(),
                self.wf(),
                self.model() == old(self).model(),
                self.model().version_blob(version) == blob_from(self.model().versions, version, i as int),
            decreases self.versions.len() - i,
        {
            if self.versions[i].meta.version == version {
                self.active = Some(version);
                return Ok(());
            }
            i += 1;
        }
        Err(StorageError::NotFound(concat_str("version ", decimal_string(version).as_str())))
    }

    fn append_log(&mut self, entry: &LogEntry) -> (r: Result<(), StorageError>)
        ensures
            r is Ok,
    {
        self.next_log_id = self.next_log_id + 1;
        let owned = entry.with_id(Some(self.next_log_id));
        let ghost old_log = self.model().log;
        self.log.push(owned);
        assert(self.model().log =~= old_log.push(LogRecord { id: Some((old_log.len() + 1) as u64), ..entry@ }));
        Ok(())
    }

    fn query_log(&self, filter: &LogFilter, limit: usize) -> (r: Result<Vec<LogEntry>, StorageError>)
        ensures
            r is Ok,
    {
        let ghost log = self.model().log;
        let mut rows: Vec<LogEntry> = Vec::new();
        let mut i: usize = self.log.len();
        while i > 0 && rows.len() < limit
            invariant
                i <= self.log@.len(),
                log == self.model().log,
                rows@.map_values(|e: LogEntry| e@) == matches_newest_first(log, filter@, i as int),
                rows@.len() <= limit,
            decreases i,
        {
            i -= 1;
            let ghost before = rows@;
            if matches_filter(&self.log[i], filter) {
                rows.push(self.log[i].duplicate());
            }
            assert(rows@.map_values(|e: LogEntry| e@) =~= matches_newest_first(log, filter@, i as int));
        }
        proof {
            lemma_newest_first_prefix(log, filter@, 0, i as int);
            let all = matches_newest_first(log, filter@, 0);
            let got = matches_newest_first(log, filter@, i as int);
            if i > 0 {
                assert(rows@.len() == limit);
                assert(all.take(limit as int) =~= got);
            } else {
                assert(all == got);
            }
        }
        Ok(rows)
    }

    fn get_setting(&self, key: &str) -> (r: Result<Option<String>, StorageError>)
        ensures
            r is Ok,
    {
        proof {
            lemma_pairs_map(self.settings@);
        }
        let mut i: usize = 0;
        while i < self.settings.len()
            invariant
                i <= self.settings@.len(),
                self.wf(),
                forall|j: int| 0 <= j < i ==> self.settings@[j].0@ != key@,
            decreases self.settings.len() - i,
        {
            if str_eq(self.settings[i].0.as_str(), key) {
                proof {
                    lemma_pairs_map(self.settings@);
                }
                assert(pairs_map(self.settings@)[self.settings@[i as int].0@] == self.settings@[i as int].1@);
                return Ok(Some(self.settings[i].1.clone()));
            }
            i += 1;
        }
        proof {
            lemma_pairs_map(self.settings@);
        }
        Ok(None)
    }

    fn set_setting(&mut self, key: &str, value: &str) -> (r: Result<(), StorageError>)
        ensures
            r is Ok,
    {
        let ghost old_settings = self.settings@;
        proof {
            lemma_pairs_map(old_settings);
        }
        let mut i: usize = 0;
        while i < self.settings.len()
            invariant
                i <= self.settings@.len(),
                self.settings@ == old_settings,
                self.wf(),
                self.model() == old(self).model(),
                forall|j: int| 0 <= j < i ==> self.settings@[j].0@ != key@,
            decreases self.settings.len() - i,
        {
            if str_eq(self.settings[i].0.as_str(), key) {
                self.settings.set(i, (key.to_owned(), value.to_owned()));
                proof {
                    lemma_pairs_map(old_settings);
                    let s = self.settings@;
                    assert(keys_distinct(s)) by {
                        assert forall|a: int, b: int|
                            0 <= a < s.len() && 0 <= b < s.len() && a != b implies s[a].0@
                            != s[b].0@ by {
                            if a != i && b != i {
                                assert(old_settings[a].0@ != old_settings[b].0@);
                            } else if a == i {
                                assert(old_settings[i as int].0@ != old_settings[b].0@);
                            } else {
                                assert(old_settings[i as int].0@ != old_settings[a].0@);
                            }
                        }
                    }
                    lemma_pairs_map(s);
                    assert(pairs_map(s) =~= pairs_map(old_settings).insert(key@, value@)) by {
                        assert forall|k: Seq<char>| #[trigger] pairs_map(s).contains_key(k)
                            <== pairs_map(old_settings).insert(key@, value@).contains_key(k) by {
                            if k != key@ && pairs_map(old_settings).contains_key(k) {
                                let j = choose|j: int| 0 <= j < old_settings.len() && old_settings[j].0@ == k;
                                assert(s[j].0@ == k);
                            }
                            if k == key@ {
                                assert(s[i as int].0@ == k);
                            }
                        }
                        assert forall|k: Seq<char>| #[trigger] pairs_map(s).contains_key(k)
                            implies pairs_map(old_settings).insert(key@, value@).contains_key(k) && pairs_map(s)[k] == pairs_map(old_settings).insert(key@, value@)[k] by {
                            let j = choose|j: int| 0 <= j < s.len() && s[j].0@ == k;
                            if j != i {
                                assert(old_settings[j].0@ == k);
                            }
                        }
                    }
                }
                return Ok(());
            }
            i += 1;
        }
        self.settings.push((key.to_owned(), value.to_owned()));
        proof {
            let s = self.settings@;
            assert(s.drop_last() =~= old_settings);
            assert(keys_distinct(s)) by {
                assert forall|a: int, b: int|
                    0 <= a < s.len() && 0 <= b < s.len() && a != b implies s[a].0@ != s[b].0@ by {
                    if a < old_settings.len() && b < old_settings.len() {
                        assert(old_settings[a].0@ != old_settings[b].0@);
                    }
                }
            }
        }
        Ok(())
    }
}

} // verus!
