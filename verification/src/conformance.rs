//! A conformance suite for `Storage` implementations: it drives a fresh store
//! through every method and checks each result against the contract. Any
//! store that meets the `Storage` contract passes it unless its backend fails
//! on its own; the only failures it can report are those.

use vstd::prelude::*;
use crate::direction::Direction;
use crate::log_entry::{LogEntry, LogFilter, LogRecord};
use crate::storage::{Storage, StorageError, StoreModel, blob_from, matches_newest_first, search_hit, seq_has};
use crate::text::{str_to_lowercase, bytes_to_string_lossy, occurs_at};
use crate::text::{bytes_eq, str_eq, string_of};

verus! {

/// Why the conformance suite stopped.
#[derive(Debug)]
pub enum ConformanceFailure {
    /// The store returned an error of its own.
    Storage(StorageError),
    /// A result differed from what the `Storage` contract requires.
    Mismatch(&'static str),
}

/// The result of one suite stage: `Mismatch` never occurs for a conforming store.
pub open spec fn no_mismatch(r: Result<(), ConformanceFailure>) -> bool {
    match r {
        Err(ConformanceFailure::Mismatch(_)) => false,
        Err(ConformanceFailure::Storage(e)) => e is Backend || e is Malformed,
        Ok(_) => true,
    }
}

/// The blob the suite saves as version 1 (`"first"`).
pub open spec fn suite_first_blob() -> Seq<u8> {
    seq![102u8, 105, 114, 115, 116]
}

/// The blob the suite saves as version 2 (`"second"`).
pub open spec fn suite_second_blob() -> Seq<u8> {
    seq![115u8, 101, 99, 111, 110, 100]
}

/// The versions and active pointer the suite leaves: version 1 holding
/// `"first"` with note `"one"`, version 2 holding `"second"` with no note,
/// and version 1 active.
pub open spec fn suite_versions_saved(m: StoreModel) -> bool {
    &&& m.versions.len() == 2
    &&& m.versions[0].meta.version == 1
    &&& m.versions[0].meta.note == Some("one"@)
    &&& m.versions[0].blob == suite_first_blob()
    &&& m.versions[1].meta.version == 2
    &&& m.versions[1].meta.note is None
    &&& m.versions[1].blob == suite_second_blob()
    &&& m.active == Some(1u64)
}

/// The settings the suite leaves: `k` set to `v2`.
pub open spec fn suite_settings_map() -> Map<Seq<char>, Seq<char>> {
    Map::<Seq<char>, Seq<char>>::empty().insert("k"@, "v2"@)
}

/// A log record the suite appends, with the id the store gives it.
pub open spec fn suite_record(
    id: u64,
    service: Seq<char>,
    dir: Direction,
    kind: Seq<char>,
    dry: bool,
    reason: Seq<char>,
) -> LogRecord {
    LogRecord {
        id: Some(id),
        ts: 0,
        service,
        direction: dir,
        filter_id: 0,
        rule_kind: kind,
        dry_run: dry,
        reason,
        sample: suite_sample(),
    }
}

/// The block log the suite leaves: three entries with ids 1, 2, 3.
pub open spec fn suite_log_records() -> Seq<LogRecord> {
    seq![
        suite_record(1, "web-api"@, Direction::Inbound, "regex"@, false, "r1"@),
        suite_record(2, "web-api"@, Direction::Outbound, "http"@, true, "r2"@),
        suite_record(3, "flag-svc"@, Direction::Inbound, "regex"@, false, "r3"@),
    ]
}

fn first_blob() -> (r: Vec<u8>)
    ensures
        r@ == seq![102u8, 105, 114, 115, 116],
{
    vec![102u8, 105, 114, 115, 116]
}

fn second_blob() -> (r: Vec<u8>)
    ensures
        r@ == seq![115u8, 101, 99, 111, 110, 100],
{
    vec![115u8, 101, 99, 111, 110, 100]
}

/// Versions and the active pointer.
fn suite_versions<S: Storage>(s: &mut S) -> (r: Result<(), ConformanceFailure>)
    requires
        old(s).wf(),
        old(s).model().versions.len() == 0,
        old(s).model().active is None,
    ensures
        no_mismatch(r),
        final(s).wf(),
        final(s).never_fails() == old(s).never_fails(),
        old(s).never_fails() ==> r is Ok,
        final(s).model().log == old(s).model().log,
        final(s).model().settings == old(s).model().settings,
        r is Ok ==> suite_versions_saved(final(s).model()),
{
    match s.active_version() {
        Ok(_) => return Err(ConformanceFailure::Mismatch("active version on a fresh store")),
        Err(StorageError::NotFound(_)) => {},
        Err(e) => return Err(ConformanceFailure::Storage(e)),
    }
    match s.list_versions() {
        Ok(metas) => {
            proof {
                assert(metas@.map_values(|m: crate::storage::VersionMeta| m@).len() == metas@.len());
                assert(s.model().metas_newest_first().len() == 0);
            }
            if metas.len() != 0 {
                return Err(ConformanceFailure::Mismatch("versions on a fresh store"));
            }
        },
        Err(e) => return Err(ConformanceFailure::Storage(e)),
    }
    let first = first_blob();
    let second = second_blob();
    let one = "one";
    proof {
        reveal_strlit("one");
    }
    let ghost m0 = s.model();
    let v1 = match s.save_version(first.as_slice(), Some(one)) {
        Ok(v) => v,
        Err(e) => return Err(ConformanceFailure::Storage(e)),
    };
    let ghost m1 = s.model();
    let v2 = match s.save_version(second.as_slice(), None) {
        Ok(v) => v,
        Err(e) => return Err(ConformanceFailure::Storage(e)),
    };
    let ghost m2 = s.model();
    if v1 != 1 || v2 != 2 {
        return Err(ConformanceFailure::Mismatch("version numbers"));
    }
    proof {
        assert(m2.versions[0] == m1.versions[0]);
        assert(m2.versions[0].blob == first@);
        assert(m2.versions[1].blob == second@);
        assert(m2.versions[0].meta.version == 1);
        assert(m2.versions[1].meta.version == 2);
        reveal_with_fuel(blob_from, 3);
        assert(m2.version_blob(1) == Some(first@));
        assert(m2.version_blob(2) == Some(second@));
        assert(m2.version_blob(99) is None);
    }
    match s.load_version(1) {
        Ok(b) => {
            if !bytes_eq(b.as_slice(), first.as_slice()) {
                return Err(ConformanceFailure::Mismatch("load version 1"));
            }
        },
        Err(StorageError::NotFound(_)) => return Err(ConformanceFailure::Mismatch("version 1 missing")),
        Err(e) => return Err(ConformanceFailure::Storage(e)),
    }
    match s.load_version(2) {
        Ok(b) => {
            if !bytes_eq(b.as_slice(), second.as_slice()) {
                return Err(ConformanceFailure::Mismatch("load version 2"));
            }
        },
        Err(StorageError::NotFound(_)) => return Err(ConformanceFailure::Mismatch("version 2 missing")),
        Err(e) => return Err(ConformanceFailure::Storage(e)),
    }
    match s.list_versions() {
        Ok(metas) => {
            proof {
                assert(metas@.map_values(|m: crate::storage::VersionMeta| m@).len() == metas@.len());
                assert(m2.metas_newest_first().len() == 2);
                assert(metas@.map_values(|m: crate::storage::VersionMeta| m@)[0] == m2.metas_newest_first()[0]);
                assert(metas@.map_values(|m: crate::storage::VersionMeta| m@)[1] == m2.metas_newest_first()[1]);
            }
            if metas.len() != 2 {
                return Err(ConformanceFailure::Mismatch("two versions listed"));
            }
            if metas[0].version != 2 || metas[1].version != 1 {
                return Err(ConformanceFailure::Mismatch("versions newest first"));
            }
            if metas[0].note.is_some() {
                return Err(ConformanceFailure::Mismatch("version 2 has no note"));
            }
            match &metas[1].note {
                Some(n) => {
                    if !str_eq(n.as_str(), one) {
                        return Err(ConformanceFailure::Mismatch("version 1 note"));
                    }
                },
                None => return Err(ConformanceFailure::Mismatch("version 1 note missing")),
            }
        },
        Err(e) => return Err(ConformanceFailure::Storage(e)),
    }
    match s.load_version(99) {
        Ok(_) => return Err(ConformanceFailure::Mismatch("version 99 present")),
        Err(StorageError::NotFound(_)) => {},
        Err(e) => return Err(ConformanceFailure::Storage(e)),
    }
    // The active pointer.
    match s.set_active_version(2) {
        Ok(_) => {},
        Err(StorageError::NotFound(_)) => return Err(ConformanceFailure::Mismatch("set active 2")),
        Err(e) => return Err(ConformanceFailure::Storage(e)),
    }
    match s.active_version() {
        Ok(v) => {
            if v != 2 {
                return Err(ConformanceFailure::Mismatch("active is 2"));
            }
        },
        Err(StorageError::NotFound(_)) => return Err(ConformanceFailure::Mismatch("active set")),
        Err(e) => return Err(ConformanceFailure::Storage(e)),
    }
    match s.set_active_version(1) {
        Ok(_) => {},
        Err(StorageError::NotFound(_)) => return Err(ConformanceFailure::Mismatch("set active 1")),
        Err(e) => return Err(ConformanceFailure::Storage(e)),
    }
    match s.active_version() {
        Ok(v) => {
            if v != 1 {
                return Err(ConformanceFailure::Mismatch("active is 1"));
            }
        },
        Err(StorageError::NotFound(_)) => return Err(ConformanceFailure::Mismatch("active set")),
        Err(e) => return Err(ConformanceFailure::Storage(e)),
    }
    let ghost m3 = s.model();
    match s.set_active_version(99) {
        Ok(_) => return Err(ConformanceFailure::Mismatch("set active to a missing version")),
        Err(StorageError::NotFound(_)) => {},
        Err(e) => return Err(ConformanceFailure::Storage(e)),
    }
    proof {
        assert(s.model() == m3);
        assert(m3.versions == m2.versions);
        assert(m1.versions.last().meta.note == Some(one@));
        assert(m2.versions[0] == m1.versions.last());
        assert(first@ =~= suite_first_blob());
        assert(second@ =~= suite_second_blob());
    }
    Ok(())
}

/// Key/value settings.
fn suite_settings<S: Storage>(s: &mut S) -> (r: Result<(), ConformanceFailure>)
    requires
        old(s).wf(),
        old(s).model().settings == Map::<Seq<char>, Seq<char>>::empty(),
    ensures
        no_mismatch(r),
        final(s).wf(),
        final(s).never_fails() == old(s).never_fails(),
        old(s).never_fails() ==> r is Ok,
        final(s).model().log == old(s).model().log,
        final(s).model().versions == old(s).model().versions,
        final(s).model().active == old(s).model().active,
        r is Ok ==> final(s).model().settings == suite_settings_map(),
{
    proof {
        reveal_strlit("k");
        reveal_strlit("v2");
    }
    let k = "k";
    let v = "v";
    let v2 = "v2";
    match s.get_setting(k) {
        Ok(None) => {},
        Ok(Some(_)) => return Err(ConformanceFailure::Mismatch("unset setting present")),
        Err(e) => return Err(ConformanceFailure::Storage(e)),
    }
    match s.set_setting(k, v) {
        Ok(_) => {},
        Err(e) => return Err(ConformanceFailure::Storage(e)),
    }
    match s.get_setting(k) {
        Ok(Some(got)) => {
            if !str_eq(got.as_str(), v) {
                return Err(ConformanceFailure::Mismatch("setting value"));
            }
        },
        Ok(None) => return Err(ConformanceFailure::Mismatch("setting missing")),
        Err(e) => return Err(ConformanceFailure::Storage(e)),
    }
    match s.set_setting(k, v2) {
        Ok(_) => {},
        Err(e) => return Err(ConformanceFailure::Storage(e)),
    }
    match s.get_setting(k) {
        Ok(Some(got)) => {
            if !str_eq(got.as_str(), v2) {
                return Err(ConformanceFailure::Mismatch("overwritten setting value"));
            }
        },
        Ok(None) => return Err(ConformanceFailure::Mismatch("setting missing")),
        Err(e) => return Err(ConformanceFailure::Storage(e)),
    }
    proof {
        assert(s.model().settings =~= suite_settings_map());
    }
    Ok(())
}

/// The sample bytes every suite entry carries (`"sample"`).
pub open spec fn suite_sample() -> Seq<u8> {
    seq![115u8, 97, 109, 112, 108, 101]
}

fn suite_entry(service: &str, dir: Direction, kind: &str, dry: bool, reason: &str) -> (r: LogEntry)
    ensures
        r@ == (LogRecord {
            id: None,
            ts: 0,
            service: service@,
            direction: dir,
            filter_id: 0,
            rule_kind: kind@,
            dry_run: dry,
            reason: reason@,
            sample: suite_sample(),
        }),
{
    LogEntry {
        id: None,
        ts: 0,
        service: string_of(service),
        direction: dir,
        filter_id: 0,
        rule_kind: string_of(kind),
        dry_run: dry,
        reason: string_of(reason),
        sample: vec![115u8, 97, 109, 112, 108, 101],
    }
}

fn unrestricted() -> (r: LogFilter)
    ensures
        r@.is_unrestricted(),
{
    LogFilter::default()
}

/// The block log: ids, ordering, limits and every filter dimension.
#[verifier::rlimit(60)]
fn suite_log<S: Storage>(s: &mut S) -> (r: Result<(), ConformanceFailure>)
    requires
        old(s).wf(),
        old(s).model().log.len() == 0,
    ensures
        no_mismatch(r),
        final(s).wf(),
        final(s).never_fails() == old(s).never_fails(),
        old(s).never_fails() ==> r is Ok,
        final(s).model().versions == old(s).model().versions,
        final(s).model().active == old(s).model().active,
        final(s).model().settings == old(s).model().settings,
        r is Ok ==> final(s).model().log == suite_log_records(),
{
    let web = "web-api";
    let flag = "flag-svc";
    let regex = "regex";
    let http = "http";
    let r1 = "r1";
    let r2 = "r2";
    let r3 = "r3";
    proof {
        reveal_strlit("web-api");
        reveal_strlit("flag-svc");
        reveal_strlit("regex");
        reveal_strlit("http");
        reveal_strlit("r1");
        reveal_strlit("r2");
        reveal_strlit("r3");
    }
    let e1 = suite_entry(web, Direction::Inbound, regex, false, r1);
    let e2 = suite_entry(web, Direction::Outbound, http, true, r2);
    let e3 = suite_entry(flag, Direction::Inbound, regex, false, r3);
    match s.append_log(&e1) {
        Ok(_) => {},
        Err(e) => return Err(ConformanceFailure::Storage(e)),
    }
    match s.append_log(&e2) {
        Ok(_) => {},
        Err(e) => return Err(ConformanceFailure::Storage(e)),
    }
    match s.append_log(&e3) {
        Ok(_) => {},
        Err(e) => return Err(ConformanceFailure::Storage(e)),
    }
    let ghost log = s.model().log;
    let ghost after = s.model();
    assert(log.len() == 3);
    assert(log =~= suite_log_records());
    assert(log[0].reason == r1@ && log[1].reason == r2@ && log[2].reason == r3@);
    assert(log[0].id is Some && log[1].id is Some && log[2].id is Some);
    // No filter, big limit: all rows newest first, ids assigned.
    let all_f = unrestricted();
    proof {
        reveal_with_fuel(matches_newest_first, 4);
        assert(matches_newest_first(log, all_f@, 0) =~= seq![log[2], log[1], log[0]]);
    }
    match s.query_log(&all_f, 100) {
        Ok(rows) => {
            proof {
                assert(rows@.map_values(|e: LogEntry| e@).len() == rows@.len());
                assert(rows@.map_values(|e: LogEntry| e@)[0] == log[2]);
                assert(rows@.map_values(|e: LogEntry| e@)[1] == log[1]);
                assert(rows@.map_values(|e: LogEntry| e@)[2] == log[0]);
            }
            if rows.len() != 3 {
                return Err(ConformanceFailure::Mismatch("three rows"));
            }
            if !str_eq(rows[0].reason.as_str(), r3) || !str_eq(rows[2].reason.as_str(), r1) {
                return Err(ConformanceFailure::Mismatch("rows newest first"));
            }
            if rows[0].id.is_none() || rows[1].id.is_none() || rows[2].id.is_none() {
                return Err(ConformanceFailure::Mismatch("ids assigned"));
            }
        },
        Err(e) => return Err(ConformanceFailure::Storage(e)),
    }
    // Limit truncates.
    match s.query_log(&all_f, 2) {
        Ok(rows) => {
            proof {
                assert(rows@.map_values(|e: LogEntry| e@).len() == rows@.len());
                assert(rows@.map_values(|e: LogEntry| e@)[0] == log[2]);
                assert(rows@.map_values(|e: LogEntry| e@)[1] == log[1]);
            }
            if rows.len() != 2 {
                return Err(ConformanceFailure::Mismatch("limit two"));
            }
            if !str_eq(rows[0].reason.as_str(), r3) || !str_eq(rows[1].reason.as_str(), r2) {
                return Err(ConformanceFailure::Mismatch("limited rows newest first"));
            }
        },
        Err(e) => return Err(ConformanceFailure::Storage(e)),
    }
    // Filter by service.
    let mut only_web = unrestricted();
    only_web.services = vec![string_of(web)];
    proof {
        assert(only_web@.services =~= seq![web@]);
        assert(!seq_has(only_web@.services, flag@)) by {
            assert(flag@.len() != web@.len());
        }
        assert(seq_has(only_web@.services, web@)) by {
            assert(only_web@.services[0] == web@);
        }
        reveal_with_fuel(matches_newest_first, 4);
        assert(matches_newest_first(log, only_web@, 0) =~= seq![log[1], log[0]]);
    }
    match s.query_log(&only_web, 100) {
        Ok(rows) => {
            proof {
                assert(rows@.map_values(|e: LogEntry| e@).len() == rows@.len());
            }
            if rows.len() != 2 {
                return Err(ConformanceFailure::Mismatch("service filter"));
            }
        },
        Err(e) => return Err(ConformanceFailure::Storage(e)),
    }
    // Filter by direction.
    let mut only_out = unrestricted();
    only_out.directions = vec![Direction::Outbound];
    proof {
        assert(only_out@.directions =~= seq![Direction::Outbound]);
        assert(!seq_has(only_out@.directions, Direction::Inbound));
        assert(seq_has(only_out@.directions, Direction::Outbound)) by {
            assert(only_out@.directions[0] == Direction::Outbound);
        }
        reveal_with_fuel(matches_newest_first, 4);
        assert(matches_newest_first(log, only_out@, 0) =~= seq![log[1]]);
    }
    match s.query_log(&only_out, 100) {
        Ok(rows) => {
            proof {
                assert(rows@.map_values(|e: LogEntry| e@).len() == rows@.len());
                assert(rows@.map_values(|e: LogEntry| e@)[0] == log[1]);
            }
            if rows.len() != 1 {
                return Err(ConformanceFailure::Mismatch("direction filter"));
            }
            if !str_eq(rows[0].reason.as_str(), r2) {
                return Err(ConformanceFailure::Mismatch("direction filter row"));
            }
        },
        Err(e) => return Err(ConformanceFailure::Storage(e)),
    }
    // Filter by kind.
    let mut only_http = unrestricted();
    only_http.kinds = vec![string_of(http)];
    proof {
        assert(only_http@.kinds =~= seq![http@]);
        assert(!seq_has(only_http@.kinds, regex@)) by {
            assert(regex@.len() != http@.len());
        }
        assert(seq_has(only_http@.kinds, http@)) by {
            assert(only_http@.kinds[0] == http@);
        }
        reveal_with_fuel(matches_newest_first, 4);
        assert(matches_newest_first(log, only_http@, 0) =~= seq![log[1]]);
    }
    match s.query_log(&only_http, 100) {
        Ok(rows) => {
            proof {
                assert(rows@.map_values(|e: LogEntry| e@).len() == rows@.len());
                assert(rows@.map_values(|e: LogEntry| e@)[0] == log[1]);
            }
            if rows.len() != 1 {
                return Err(ConformanceFailure::Mismatch("kind filter"));
            }
            if !str_eq(rows[0].reason.as_str(), r2) {
                return Err(ConformanceFailure::Mismatch("kind filter row"));
            }
        },
        Err(e) => return Err(ConformanceFailure::Storage(e)),
    }
    // Filter by dry-run.
    let mut only_dry = unrestricted();
    only_dry.dry_run_only = Some(true);
    proof {
        reveal_with_fuel(matches_newest_first, 4);
        assert(matches_newest_first(log, only_dry@, 0) =~= seq![log[1]]);
    }
    match s.query_log(&only_dry, 100) {
        Ok(rows) => {
            proof {
                assert(rows@.map_values(|e: LogEntry| e@).len() == rows@.len());
            }
            if rows.len() != 1 {
                return Err(ConformanceFailure::Mismatch("dry-run filter"));
            }
        },
        Err(e) => return Err(ConformanceFailure::Storage(e)),
    }
    let mut only_real = unrestricted();
    only_real.dry_run_only = Some(false);
    proof {
        reveal_with_fuel(matches_newest_first, 4);
        assert(matches_newest_first(log, only_real@, 0) =~= seq![log[2], log[0]]);
    }
    match s.query_log(&only_real, 100) {
        Ok(rows) => {
            proof {
                assert(rows@.map_values(|e: LogEntry| e@).len() == rows@.len());
            }
            if rows.len() != 2 {
                return Err(ConformanceFailure::Mismatch("real-block filter"));
            }
        },
        Err(e) => return Err(ConformanceFailure::Storage(e)),
    }
    // Search: case-insensitive on the reason.
    let big_r2 = "R2";
    proof {
        reveal_strlit("R2");
    }
    let mut search = unrestricted();
    search.search = Some(string_of(big_r2));
    // The lower-case forms the search compares.
    let needle_l = str_to_lowercase(big_r2);
    let r1_l = str_to_lowercase(r1);
    let r2_l = str_to_lowercase(r2);
    let r3_l = str_to_lowercase(r3);
    let sample_s = bytes_to_string_lossy(e1.sample.as_slice());
    let sample_l = str_to_lowercase(sample_s.as_str());
    proof {
        assert(needle_l@ =~= r2@);
        assert(r1_l@ =~= r1@);
        assert(r2_l@ =~= r2@);
        assert(r3_l@ =~= r3@);
        assert(sample_s@ =~= seq!['s', 'a', 'm', 'p', 'l', 'e']);
        assert(sample_l@ =~= sample_s@);
        assert(occurs_at(r2@, r2@, 0)) by {
            assert(r2@.subrange(0, 2) =~= r2@);
        }
        assert forall|i: int| !occurs_at(r1@, r2@, i) by {
            if occurs_at(r1@, r2@, i) {
                assert(r1@.subrange(i, i + 2)[1] == r2@[1]);
            }
        }
        assert forall|i: int| !occurs_at(r3@, r2@, i) by {
            if occurs_at(r3@, r2@, i) {
                assert(r3@.subrange(i, i + 2)[1] == r2@[1]);
            }
        }
        assert forall|i: int| !occurs_at(sample_l@, r2@, i) by {
            if occurs_at(sample_l@, r2@, i) {
                assert(sample_l@.subrange(i, i + 2)[0] == r2@[0]);
            }
        }
        assert(search@.search == Some(big_r2@));
        assert(search_hit(log[1], big_r2@));
        assert(!search_hit(log[0], big_r2@));
        assert(!search_hit(log[2], big_r2@));
        reveal_with_fuel(matches_newest_first, 4);
        assert(matches_newest_first(log, search@, 0) =~= seq![log[1]]);
    }
    match s.query_log(&search, 100) {
        Ok(rows) => {
            proof {
                assert(rows@.map_values(|e: LogEntry| e@).len() == rows@.len());
                assert(rows@.map_values(|e: LogEntry| e@)[0] == log[1]);
            }
            if rows.len() != 1 {
                return Err(ConformanceFailure::Mismatch("search filter"));
            }
            if !str_eq(rows[0].reason.as_str(), r2) {
                return Err(ConformanceFailure::Mismatch("search filter row"));
            }
        },
        Err(e) => return Err(ConformanceFailure::Storage(e)),
    }
    assert(s.model() == after);
    Ok(())
}

/// Drive a fresh store through every `Storage` method, checking each result
/// against the contract: versions, the active pointer, settings and the block
/// log with every filter dimension. A store that meets the `Storage` contract
/// never yields `Mismatch`; the only errors it can report are the store's own
/// backend (or decoding) failures, so a store that never fails passes.
pub fn run_conformance_suite<S: Storage>(s: &mut S) -> (r: Result<(), ConformanceFailure>)
    requires
        old(s).wf(),
        old(s).model() == StoreModel::empty(),
    ensures
        no_mismatch(r),
        final(s).wf(),
        final(s).never_fails() == old(s).never_fails(),
        old(s).never_fails() ==> r is Ok,
        r is Ok ==> suite_versions_saved(final(s).model()) && final(s).model().settings
            == suite_settings_map() && final(s).model().log == suite_log_records(),
{
    suite_versions(s)?;
    suite_settings(s)?;
    suite_log(s)
}

} // verus!
