use minos::config::{commit_version, load_active_blob, save_checked, ConfigError};
use minos::conformance::run_conformance_suite;
use minos::log_sql::{
    decode_log_row, direction_from_name, log_insert_params, log_query, LogRow, SqlValue,
};
use minos::memory::matches_filter;
use minos::{Direction, InMemoryStorage, LogEntry, LogFilter, Storage, StorageError};

#[test]
fn save_and_load_version() {
    let mut s = InMemoryStorage::new();
    let v = s.save_version(b"hello", Some("first")).unwrap();
    assert_eq!(v, 1);
    assert_eq!(s.load_version(1).unwrap(), b"hello".to_vec());
}

#[test]
fn versions_increment() {
    let mut s = InMemoryStorage::new();
    assert_eq!(s.save_version(b"a", None).unwrap(), 1);
    assert_eq!(s.save_version(b"b", None).unwrap(), 2);
    assert_eq!(s.save_version(b"c", None).unwrap(), 3);
}

#[test]
fn list_versions_returns_newest_first() {
    let mut s = InMemoryStorage::new();
    s.save_version(b"a", None).unwrap();
    s.save_version(b"b", None).unwrap();
    s.save_version(b"c", None).unwrap();
    let metas = s.list_versions().unwrap();
    assert_eq!(
        metas.iter().map(|m| m.version).collect::<Vec<_>>(),
        vec![3, 2, 1]
    );
}

#[test]
fn active_version_round_trips() {
    let mut s = InMemoryStorage::new();
    assert!(matches!(s.active_version(), Err(StorageError::NotFound(_))));
    s.save_version(b"x", None).unwrap();
    s.set_active_version(1).unwrap();
    assert_eq!(s.active_version().unwrap(), 1);
}

#[test]
fn set_active_to_unknown_errors() {
    let mut s = InMemoryStorage::new();
    assert!(matches!(
        s.set_active_version(99),
        Err(StorageError::NotFound(_))
    ));
}

#[test]
fn settings_round_trip() {
    let mut s = InMemoryStorage::new();
    assert_eq!(s.get_setting("k").unwrap(), None);
    s.set_setting("k", "v").unwrap();
    assert_eq!(s.get_setting("k").unwrap(), Some("v".into()));
}

#[test]
fn in_memory_passes_conformance_suite() {
    let mut s = InMemoryStorage::new();
    assert!(run_conformance_suite(&mut s).is_ok());
}

fn entry(service: &str, ts: i64, dry_run: bool, reason: &str, sample: &[u8]) -> LogEntry {
    LogEntry {
        id: None,
        ts,
        service: service.into(),
        direction: Direction::Inbound,
        filter_id: 0,
        rule_kind: "regex".into(),
        dry_run,
        reason: reason.into(),
        sample: sample.to_vec(),
    }
}

#[test]
fn query_returns_newest_matches_within_limit() {
    let mut s = InMemoryStorage::new();
    s.append_log(&entry("a", 10, false, "one", b"")).unwrap();
    s.append_log(&entry("b", 20, true, "two", b"")).unwrap();
    s.append_log(&entry("a", 30, false, "three", b"EVIL")).unwrap();
    let all = s.query_log(&LogFilter::default(), 10).unwrap();
    assert_eq!(
        all.iter().map(|e| e.id).collect::<Vec<_>>(),
        vec![Some(3), Some(2), Some(1)]
    );
    let f = LogFilter {
        services: vec!["a".into()],
        ..LogFilter::default()
    };
    let only_a = s.query_log(&f, 1).unwrap();
    assert_eq!(only_a.len(), 1);
    assert_eq!(only_a[0].reason, "three");
    let search = LogFilter {
        search: Some("evil".into()),
        ..LogFilter::default()
    };
    assert_eq!(s.query_log(&search, 10).unwrap().len(), 1);
    let window = LogFilter {
        since_ms: Some(20),
        until_ms: Some(30),
        ..LogFilter::default()
    };
    let w = s.query_log(&window, 10).unwrap();
    assert_eq!(w.len(), 1);
    assert_eq!(w[0].ts, 20);
    assert!(matches_filter(
        &entry("b", 20, true, "two", b""),
        &LogFilter {
            dry_run_only: Some(true),
            ..LogFilter::default()
        }
    ));
}

#[test]
fn committed_config_reads_back() {
    let mut s = InMemoryStorage::new();
    assert!(matches!(
        load_active_blob(&s),
        Err(ConfigError::Storage(StorageError::NotFound(_)))
    ));
    let v = commit_version(&mut s, b"{\"services\":[]}", Some("first")).unwrap();
    assert_eq!(v, 1);
    assert_eq!(load_active_blob(&s).unwrap(), b"{\"services\":[]}".to_vec());
    let v2 = commit_version(&mut s, b"second", None).unwrap();
    assert_eq!(v2, 2);
    assert_eq!(load_active_blob(&s).unwrap(), b"second".to_vec());
    assert_eq!(s.load_version(1).unwrap(), b"{\"services\":[]}".to_vec());
}

#[test]
fn rejected_config_is_not_saved() {
    let mut s = InMemoryStorage::new();
    let r = save_checked(&mut s, Err(ConfigError::Invalid("duplicate service name: web".into())), None);
    assert!(matches!(r, Err(ConfigError::Invalid(m)) if m == "duplicate service name: web"));
    assert!(s.list_versions().unwrap().is_empty());
    assert!(matches!(s.active_version(), Err(StorageError::NotFound(_))));
    let v = save_checked(&mut s, Ok(b"ok".to_vec()), Some("good")).unwrap();
    assert_eq!(v, 1);
    assert_eq!(load_active_blob(&s).unwrap(), b"ok".to_vec());
}

#[test]
fn unfiltered_query_sql() {
    let q = log_query(&LogFilter::default(), 50);
    assert_eq!(
        q.sql,
        "SELECT id, ts, service, direction, filter_id, rule_kind, dry_run, reason, sample\n             FROM block_log ORDER BY id DESC LIMIT ?"
    );
    assert_eq!(q.params, vec![SqlValue::Integer(50)]);
}

#[test]
fn filtered_query_sql_and_params() {
    let f = LogFilter {
        services: vec!["a".into(), "b".into()],
        directions: vec![Direction::Outbound],
        kinds: vec![],
        filter_id: Some(0x0011_2233_4455_6677_8899_aabb_ccdd_eeff),
        dry_run_only: Some(true),
        search: Some("EvIl".into()),
        since_ms: Some(5),
        until_ms: Some(9),
    };
    let q = log_query(&f, 3);
    assert!(q.sql.ends_with(
        " WHERE service IN (?, ?) AND direction IN (?) AND filter_id = ? AND dry_run = ? AND (LOWER(reason) LIKE ? ESCAPE '\\' OR LOWER(CAST(sample AS TEXT)) LIKE ? ESCAPE '\\') AND ts >= ? AND ts < ? ORDER BY id DESC LIMIT ?"
    ));
    assert_eq!(
        q.params,
        vec![
            SqlValue::Text("a".into()),
            SqlValue::Text("b".into()),
            SqlValue::Text("outbound".into()),
            SqlValue::Text("00112233-4455-6677-8899-aabbccddeeff".into()),
            SqlValue::Integer(1),
            SqlValue::Text("%evil%".into()),
            SqlValue::Text("%evil%".into()),
            SqlValue::Integer(5),
            SqlValue::Integer(9),
            SqlValue::Integer(3),
        ]
    );
}

#[test]
fn search_wildcards_are_escaped() {
    let f = LogFilter {
        search: Some("R_50%\\x".into()),
        ..LogFilter::default()
    };
    let q = log_query(&f, 10);
    assert_eq!(
        q.params,
        vec![
            SqlValue::Text("%r\\_50\\%\\\\x%".into()),
            SqlValue::Text("%r\\_50\\%\\\\x%".into()),
            SqlValue::Integer(10),
        ]
    );
}

#[test]
fn stored_row_reads_back_as_entry() {
    let mut e = entry("web", 42, true, "why", b"\x00\x01");
    e.filter_id = uuid::Uuid::new_v4().as_u128();
    e.direction = Direction::Outbound;
    let p = log_insert_params(&e);
    let text = |v: &SqlValue| match v {
        SqlValue::Text(s) => s.clone(),
        other => panic!("expected text, got {other:?}"),
    };
    let row = LogRow {
        id: 17,
        ts: 42,
        service: text(&p[1]),
        direction: text(&p[2]),
        filter_id: text(&p[3]),
        rule_kind: text(&p[4]),
        dry_run: match p[5] {
            SqlValue::Integer(n) => n,
            _ => panic!("expected integer"),
        },
        reason: text(&p[6]),
        sample: match &p[7] {
            SqlValue::Blob(b) => b.clone(),
            _ => panic!("expected blob"),
        },
    };
    let back = decode_log_row(row).unwrap();
    let mut expected = e.clone();
    expected.id = Some(17);
    assert_eq!(back, expected);
}

#[test]
fn malformed_rows_are_rejected() {
    assert!(matches!(
        direction_from_name("sideways"),
        Err(StorageError::Malformed(m)) if m == "unknown direction sideways"
    ));
    assert_eq!(direction_from_name("inbound").unwrap(), Direction::Inbound);
    let row = LogRow {
        id: 1,
        ts: 0,
        service: "s".into(),
        direction: "inbound".into(),
        filter_id: "not-a-uuid".into(),
        rule_kind: "k".into(),
        dry_run: 0,
        reason: "r".into(),
        sample: vec![],
    };
    assert!(matches!(decode_log_row(row), Err(StorageError::Malformed(m)) if m.starts_with("filter_id: ")));
}

#[test]
fn storage_error_messages() {
    assert_eq!(StorageError::NotFound("v".into()).message(), "not found: v");
    assert_eq!(StorageError::Backend("b".into()).message(), "backend error: b");
    assert_eq!(StorageError::Malformed("m".into()).message(), "malformed data: m");
}

#[test]
fn filter_ids_read_back_in_every_uuid_form() {
    let row = |id: &str| LogRow {
        id: 3,
        ts: 0,
        service: "s".into(),
        direction: "outbound".into(),
        filter_id: id.into(),
        rule_kind: "k".into(),
        dry_run: 1,
        reason: "r".into(),
        sample: vec![],
    };
    let want: u128 = 0x0011_2233_4455_6677_8899_aabb_ccdd_eeff;
    for form in [
        "00112233-4455-6677-8899-aabbccddeeff",
        "00112233445566778899AABBCCDDEEFF",
        "{00112233-4455-6677-8899-aabbccddeeff}",
        "URN:uuid:00112233-4455-6677-8899-AaBbCcDdEeFf",
    ] {
        assert_eq!(decode_log_row(row(form)).unwrap().filter_id, want, "{form}");
    }
    for bad in [
        "00112233-4455-6677-8899-aabbccddeefg",
        "0011223344556677-8899-aabbccddeeff",
        "[00112233-4455-6677-8899-aabbccddeeff]",
        "urn:uid:00112233-4455-6677-8899-aabbccddeeff",
    ] {
        assert!(matches!(
            decode_log_row(row(bad)),
            Err(StorageError::Malformed(m)) if m.starts_with("filter_id: ")
        ));
    }
}

#[test]
fn not_found_messages_name_what_is_missing() {
    let mut s = InMemoryStorage::new();
    assert!(matches!(s.active_version(), Err(StorageError::NotFound(m)) if m == "no active version"));
    assert!(matches!(s.load_version(99), Err(StorageError::NotFound(m)) if m == "version 99"));
    assert!(matches!(s.set_active_version(12), Err(StorageError::NotFound(m)) if m == "version 12"));
}
