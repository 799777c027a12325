use minos::base64::base64_encode;
use minos::http_filter::{HeaderMatch, HttpConfig, HttpFilter, HttpKind};
use minos::regex_filter::{regex_verdict, RegexConfig, RegexFilter, RegexKind};
use minos::{BuildError, Direction, Filter, FilterError, Packet, ParsedHttp, Verdict};

fn raw(bytes: &[u8]) -> Packet<'_> {
    Packet::Raw {
        bytes,
        direction: Direction::Inbound,
    }
}

fn http(req: &ParsedHttp) -> Packet<'_> {
    Packet::Http {
        req,
        direction: Direction::Inbound,
    }
}

#[test]
fn matches_raw_bytes() {
    let f = RegexFilter::new("DROP TABLE").unwrap();
    assert!(matches!(
        f.inspect(&raw(b"hello DROP TABLE users")),
        Verdict::Block { .. }
    ));
    assert!(matches!(f.inspect(&raw(b"hello users")), Verdict::Pass));
}

#[test]
fn matches_http_request_line_or_body() {
    let f = RegexFilter::new(r"/admin").unwrap();
    let req = ParsedHttp {
        method: "GET".into(),
        path: "/admin/secret".into(),
        headers: vec![],
        body: vec![],
    };
    assert!(matches!(f.inspect(&http(&req)), Verdict::Block { .. }));
}

#[test]
fn invalid_pattern_returns_err() {
    let err = RegexFilter::new("(unbalanced").err().unwrap();
    assert!(matches!(err, FilterError::BadRegex(_)));
}

#[test]
fn accepts_both_raw_and_http() {
    let f = RegexFilter::new("x").unwrap();
    assert!(f.accepts(&raw(b"")));
    let req = ParsedHttp {
        method: "GET".into(),
        path: "/".into(),
        headers: vec![],
        body: vec![],
    };
    assert!(f.accepts(&http(&req)));
}

#[test]
fn regex_block_reason_names_the_pattern() {
    let f = RegexFilter::new("ev[i]l").unwrap();
    assert_eq!(f.kind(), "regex");
    assert_eq!(f.pattern_source(), "ev[i]l");
    assert_eq!(
        f.inspect(&raw(b"so evil")),
        Verdict::Block {
            reason: "regex matched: ev[i]l".into()
        }
    );
    assert_eq!(
        regex_verdict("p", true),
        Verdict::Block {
            reason: "regex matched: p".into()
        }
    );
    assert_eq!(regex_verdict("p", false), Verdict::Pass);
}

#[test]
fn regex_http_subject_is_method_space_path_then_body() {
    let f = RegexFilter::new("^POST /a/bpayload$").unwrap();
    let req = ParsedHttp {
        method: "POST".into(),
        path: "/a/b".into(),
        headers: vec![("Host".into(), "h".into())],
        body: b"payload".to_vec(),
    };
    assert!(f.inspect(&http(&req)).is_block());
}

#[test]
fn regex_kind_builds_and_rejects() {
    assert_eq!(RegexKind::NAME, "regex");
    let ok = RegexKind::build(RegexConfig {
        pattern: "abc".into(),
    });
    assert_eq!(ok.unwrap().kind(), "regex");
    match RegexKind::build(RegexConfig {
        pattern: "(".into(),
    }) {
        Err(BuildError::Invalid { kind, message }) => {
            assert_eq!(kind, "regex");
            assert!(message.starts_with("invalid regex: "));
        }
        _ => panic!("expected Invalid"),
    }
}

fn req(method: &str, path: &str, body: &[u8]) -> ParsedHttp {
    ParsedHttp {
        method: method.into(),
        path: path.into(),
        headers: vec![("Host".into(), "y".into())],
        body: body.to_vec(),
    }
}

#[test]
fn empty_filter_passes() {
    let f = HttpFilter::new(HttpConfig::default()).unwrap();
    assert!(matches!(
        f.inspect(&http(&req("GET", "/", b""))),
        Verdict::Pass
    ));
}

#[test]
fn method_only_blocks() {
    let cfg = HttpConfig {
        methods: vec!["POST".into()],
        ..Default::default()
    };
    let f = HttpFilter::new(cfg).unwrap();
    assert!(matches!(
        f.inspect(&http(&req("POST", "/", b""))),
        Verdict::Block { .. }
    ));
    assert!(matches!(
        f.inspect(&http(&req("GET", "/", b""))),
        Verdict::Pass
    ));
}

#[test]
fn all_conditions_must_match() {
    let cfg = HttpConfig {
        methods: vec!["POST".into()],
        path_regex: Some("/api/.*".into()),
        body_regex: Some("DROP".into()),
        ..Default::default()
    };
    let f = HttpFilter::new(cfg).unwrap();
    assert!(matches!(
        f.inspect(&http(&req("POST", "/api/x", b"DROP TABLE"))),
        Verdict::Block { .. }
    ));
    assert!(matches!(
        f.inspect(&http(&req("GET", "/api/x", b"DROP TABLE"))),
        Verdict::Pass
    ));
    assert!(matches!(
        f.inspect(&http(&req("POST", "/x", b"DROP TABLE"))),
        Verdict::Pass
    ));
    assert!(matches!(
        f.inspect(&http(&req("POST", "/api/x", b"clean"))),
        Verdict::Pass
    ));
}

#[test]
fn header_match_with_value_regex() {
    let cfg = HttpConfig {
        headers: vec![HeaderMatch {
            name: "User-Agent".into(),
            value_regex: "(?i)sqlmap".into(),
        }],
        ..Default::default()
    };
    let f = HttpFilter::new(cfg).unwrap();
    let mut r = req("GET", "/", b"");
    r.headers.push(("User-Agent".into(), "sqlmap/1.6".into()));
    assert!(matches!(f.inspect(&http(&r)), Verdict::Block { .. }));
    r.headers.last_mut().unwrap().1 = "curl/8".into();
    assert!(matches!(f.inspect(&http(&r)), Verdict::Pass));
}

#[test]
fn raw_packet_is_rejected_by_accepts() {
    let f = HttpFilter::new(HttpConfig::default()).unwrap();
    assert!(!f.accepts(&Packet::Raw {
        bytes: b"",
        direction: Direction::Inbound,
    }));
}

#[test]
fn http_methods_compare_ignoring_ascii_case() {
    let cfg = HttpConfig {
        methods: vec!["post".into()],
        ..Default::default()
    };
    let f = HttpFilter::new(cfg).unwrap();
    assert_eq!(
        f.inspect(&http(&req("POST", "/", b""))),
        Verdict::Block {
            reason: "http filter matched".into()
        }
    );
    assert_eq!(f.inspect(&raw(b"POST")), Verdict::Pass);
    assert_eq!(f.kind(), "http");
}

#[test]
fn http_header_name_compares_ignoring_case() {
    let cfg = HttpConfig {
        headers: vec![HeaderMatch {
            name: "x-token".into(),
            value_regex: "^secret$".into(),
        }],
        ..Default::default()
    };
    let f = HttpFilter::new(cfg).unwrap();
    let mut r = req("GET", "/", b"");
    r.headers.push(("X-Token".into(), "secret".into()));
    assert!(f.inspect(&http(&r)).is_block());
}

#[test]
fn http_filter_rejects_each_bad_pattern() {
    for cfg in [
        HttpConfig {
            path_regex: Some("(".into()),
            ..Default::default()
        },
        HttpConfig {
            body_regex: Some("[".into()),
            ..Default::default()
        },
        HttpConfig {
            headers: vec![HeaderMatch {
                name: "a".into(),
                value_regex: "(".into(),
            }],
            ..Default::default()
        },
    ] {
        let err = HttpFilter::new(cfg).err().unwrap();
        assert!(matches!(err, FilterError::BadRegex(_)));
    }
    assert_eq!(HttpKind::NAME, "http");
    match HttpKind::build(HttpConfig {
        path_regex: Some("(".into()),
        ..Default::default()
    }) {
        Err(BuildError::Invalid { kind, message }) => {
            assert_eq!(kind, "http");
            assert!(message.starts_with("invalid regex: "));
        }
        _ => panic!("expected Invalid"),
    }
}

#[test]
fn error_display_for_each_variant_is_nonempty() {
    let cases = [
        FilterError::BadRegex("x".into()),
        FilterError::BadConfig("x".into()),
        FilterError::UvNotFound,
        FilterError::UvInstallFailed("x".into()),
        FilterError::Io(std::io::Error::other("x")),
        FilterError::PythonSyntaxError("x".into()),
    ];
    for c in cases {
        assert!(!c.message().is_empty());
    }
}

#[test]
fn filter_error_messages() {
    assert_eq!(FilterError::BadRegex("x".into()).message(), "invalid regex: x");
    assert_eq!(FilterError::BadConfig("y".into()).message(), "bad config: y");
    assert_eq!(
        FilterError::UvNotFound.message(),
        "uv not found on PATH (required for python_sidecar filters)"
    );
    assert_eq!(
        FilterError::UvInstallFailed("log".into()).message(),
        "uv install failed: log"
    );
    assert_eq!(FilterError::Io(std::io::Error::other("disk")).message(), "io: disk");
    assert_eq!(
        FilterError::PythonSyntaxError("line 1".into()).message(),
        "python syntax error: line 1"
    );
}

#[test]
fn base64_matches_rfc_4648_vectors() {
    assert_eq!(base64_encode(b""), "");
    assert_eq!(base64_encode(b"f"), "Zg==");
    assert_eq!(base64_encode(b"fo"), "Zm8=");
    assert_eq!(base64_encode(b"foo"), "Zm9v");
    assert_eq!(base64_encode(b"foob"), "Zm9vYg==");
    assert_eq!(base64_encode(b"fooba"), "Zm9vYmE=");
    assert_eq!(base64_encode(b"foobar"), "Zm9vYmFy");
    assert_eq!(base64_encode(b"hello"), "aGVsbG8=");
    assert_eq!(base64_encode(&[0xfb, 0xff, 0xbf]), "+/+/");
}

#[test]
fn build_unknown_kind_errors() {
    let err = minos::filter_error::unknown_kind_error("nope");
    let msg = err.message();
    assert!(msg.contains("nope"), "error should mention the missing kind, got: {msg}");
    assert!(matches!(err, BuildError::Invalid { kind: "unknown", .. }));
    assert_eq!(msg, "filter kind unknown rejected config: no filter kind registered with name nope");
}

#[test]
fn bad_config_message_names_kind_and_serde_error() {
    let source = serde_json::from_str::<u8>("\"x\"").err().unwrap();
    let serde_text = source.to_string();
    let err = BuildError::BadConfig { kind: "echo", source };
    assert_eq!(
        err.message(),
        format!("invalid config for filter kind echo: {serde_text}")
    );
    let codec = minos::sidecar::CodecError::Json(serde_json::from_str::<u8>("[").err().unwrap());
    assert!(codec.message().starts_with("json: "));
    assert!(codec.message().len() > "json: ".len());
}
