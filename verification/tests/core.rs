use std::sync::Arc;

use minos::config::{check_structure, Config, ConfigError, RuleSet, ServiceConfig};
use minos::{
    BlockResponse, BuildError, Direction, Filter, FilterInstance, LogFilter, NetAddr, Packet,
    ParsedHttp, ProtocolKind, ProxyMode, Verdict,
};

#[test]
fn header_lookup_is_case_insensitive() {
    let req = ParsedHttp::new(
        "GET",
        "/",
        vec![("Content-Type".into(), "text/plain".into())],
        vec![],
    );
    assert_eq!(req.header("content-type"), Some("text/plain"));
    assert_eq!(req.header("CONTENT-TYPE"), Some("text/plain"));
    assert_eq!(req.header("missing"), None);
}

#[test]
fn header_lookup_returns_first_on_duplicates() {
    let req = ParsedHttp::new(
        "GET",
        "/",
        vec![
            ("X-Foo".into(), "first".into()),
            ("X-Foo".into(), "second".into()),
        ],
        vec![],
    );
    assert_eq!(req.header("x-foo"), Some("first"));
}

#[test]
fn packet_direction_returns_correct_variant() {
    let bytes = b"hello";
    let raw = Packet::Raw {
        bytes,
        direction: Direction::Inbound,
    };
    assert_eq!(raw.direction(), Direction::Inbound);

    let req = ParsedHttp::new("GET", "/", vec![], vec![]);
    let http = Packet::Http {
        req: &req,
        direction: Direction::Outbound,
    };
    assert_eq!(http.direction(), Direction::Outbound);
}

#[test]
fn verdict_helpers() {
    assert!(Verdict::Pass.is_pass());
    assert!(!Verdict::Pass.is_block());
    let blk = Verdict::Block {
        reason: "bad".into(),
    };
    assert!(blk.is_block());
    assert!(!blk.is_pass());
}

#[test]
fn default_block_response_is_403_empty() {
    match BlockResponse::default() {
        BlockResponse::HttpStatus {
            status,
            body,
            headers,
        } => {
            assert_eq!(status, 403);
            assert!(body.is_empty());
            assert!(headers.is_empty());
        }
        other @ BlockResponse::Close => panic!("unexpected default: {other:?}"),
    }
}

#[test]
fn log_filter_defaults_to_unrestricted() {
    let f = LogFilter::default();
    assert!(f.services.is_empty());
    assert!(f.directions.is_empty());
    assert!(f.kinds.is_empty());
    assert!(f.filter_id.is_none());
    assert!(f.dry_run_only.is_none());
    assert!(f.search.is_none());
    assert!(f.since_ms.is_none());
    assert!(f.until_ms.is_none());
}

fn v4(a: u8, b: u8, c: u8, d: u8, port: u16) -> NetAddr {
    NetAddr::V4 {
        ip: u32::from_be_bytes([a, b, c, d]),
        port,
    }
}

#[test]
fn proxy_mode_bind_returns_correct_addr() {
    let bind = v4(127, 0, 0, 1, 80);
    let upstream = v4(127, 0, 0, 1, 5000);
    let reverse = ProxyMode::Reverse { bind, upstream };
    let transparent = ProxyMode::Transparent { bind };
    assert_eq!(reverse.bind(), bind);
    assert_eq!(transparent.bind(), bind);
}

#[test]
fn net_addr_text_matches_socket_addr_display() {
    assert_eq!(v4(127, 0, 0, 1, 5000).text(), "127.0.0.1:5000");
    assert_eq!(v4(0, 0, 0, 0, 80).text(), "0.0.0.0:80");
    let v6 = NetAddr::V6 {
        ip: 1,
        port: 8080,
    };
    assert_eq!(v6.text(), "[::1]:8080");
    let mapped = NetAddr::V6 {
        ip: 0x0000_0000_0000_0000_0000_ffff_0a00_0001,
        port: 1,
    };
    assert_eq!(mapped.text(), "[::ffff:10.0.0.1]:1");
    let full = NetAddr::V6 {
        ip: 0x2001_0db8_0000_0000_0001_0000_0000_0001,
        port: 443,
    };
    assert_eq!(full.text(), "[2001:db8::1:0:0:1]:443");
}

struct AlwaysPass;
impl Filter for AlwaysPass {
    fn kind(&self) -> &'static str {
        "always_pass"
    }
    fn accepts(&self, _: &Packet) -> bool {
        true
    }
    fn inspect(&self, _: &Packet) -> Verdict {
        Verdict::Pass
    }
}

struct BlockOnSubstr {
    needle: Vec<u8>,
}
impl Filter for BlockOnSubstr {
    fn kind(&self) -> &'static str {
        "block_on_substr"
    }
    fn accepts(&self, p: &Packet) -> bool {
        matches!(p, Packet::Raw { .. })
    }
    fn inspect(&self, p: &Packet) -> Verdict {
        let bytes = match p {
            Packet::Raw { bytes, .. } => *bytes,
            Packet::Http { .. } => return Verdict::Pass,
        };
        if bytes.windows(self.needle.len()).any(|w| w == self.needle) {
            Verdict::Block {
                reason: "matched".into(),
            }
        } else {
            Verdict::Pass
        }
    }
}

#[test]
fn always_pass_passes_everything() {
    let f = AlwaysPass;
    let pkt = Packet::Raw {
        bytes: b"anything",
        direction: Direction::Inbound,
    };
    assert!(f.accepts(&pkt));
    assert_eq!(f.inspect(&pkt), Verdict::Pass);
    assert_eq!(f.kind(), "always_pass");
}

#[test]
fn block_on_substr_only_accepts_raw() {
    let f = BlockOnSubstr {
        needle: b"evil".to_vec(),
    };
    let raw = Packet::Raw {
        bytes: b"hello evil world",
        direction: Direction::Inbound,
    };
    let req = ParsedHttp::new("GET", "/", vec![], b"evil".to_vec());
    let http = Packet::Http {
        req: &req,
        direction: Direction::Inbound,
    };
    assert!(f.accepts(&raw));
    assert!(!f.accepts(&http));
    assert_eq!(
        f.inspect(&raw),
        Verdict::Block {
            reason: "matched".into()
        }
    );
}

#[test]
fn dyn_dispatch_works() {
    let filters: Vec<Box<dyn Filter>> = vec![
        Box::new(AlwaysPass),
        Box::new(BlockOnSubstr {
            needle: b"x".into(),
        }),
    ];
    for f in &filters {
        let _ = f.kind();
    }
}

struct Noop;
impl Filter for Noop {
    fn kind(&self) -> &'static str {
        "noop"
    }
    fn accepts(&self, _: &Packet) -> bool {
        true
    }
    fn inspect(&self, _: &Packet) -> Verdict {
        Verdict::Pass
    }
}

fn instance(on_in: bool, on_out: bool) -> FilterInstance {
    FilterInstance {
        id: uuid::Uuid::new_v4().as_u128(),
        display_name: "test".into(),
        enabled: true,
        dry_run: false,
        on_inbound: on_in,
        on_outbound: on_out,
        filter: Arc::new(Noop),
    }
}

#[test]
fn applies_to_respects_direction_toggles() {
    let in_only = instance(true, false);
    assert!(in_only.applies_to(Direction::Inbound));
    assert!(!in_only.applies_to(Direction::Outbound));

    let out_only = instance(false, true);
    assert!(!out_only.applies_to(Direction::Inbound));
    assert!(out_only.applies_to(Direction::Outbound));

    let both = instance(true, true);
    assert!(both.applies_to(Direction::Inbound));
    assert!(both.applies_to(Direction::Outbound));

    let neither = instance(false, false);
    assert!(!neither.applies_to(Direction::Inbound));
    assert!(!neither.applies_to(Direction::Outbound));
}

#[test]
fn build_error_messages_include_kind() {
    let err = BuildError::Invalid {
        kind: "dummy",
        message: "bad".into(),
    };
    assert!(err.message().contains("dummy"));
    assert!(err.message().contains("bad"));
    assert_eq!(err.message(), "filter kind dummy rejected config: bad");
}

#[test]
fn direction_names_are_lowercase() {
    assert_eq!(Direction::Inbound.name(), "inbound");
    assert_eq!(Direction::Outbound.name(), "outbound");
}

fn service(name: &str, cap: usize) -> ServiceConfig {
    ServiceConfig {
        name: name.into(),
        mode: ProxyMode::Reverse {
            bind: v4(0, 0, 0, 0, 80),
            upstream: v4(127, 0, 0, 1, 5000),
        },
        protocol: ProtocolKind::Http,
        pipeline: vec![],
        block_response_override: None,
        max_body_bytes: cap,
    }
}

#[test]
fn default_config_is_empty() {
    let cfg = Config::default();
    assert!(cfg.services.is_empty());
    assert!(matches!(
        cfg.default_block_response,
        BlockResponse::HttpStatus { status: 403, ref body, ref headers } if body.is_empty() && headers.is_empty()
    ));
}

#[test]
fn validate_rejects_duplicate_service_names() {
    let mut cfg = Config::default();
    cfg.services.push(service("web", 65536));
    cfg.services.push(service("web", 65536));
    let err = check_structure(&cfg).err().unwrap();
    assert!(matches!(err, ConfigError::Invalid(_)));
    assert_eq!(err.message(), "invalid config: duplicate service name \"web\"");
}

#[test]
fn validate_rejects_zero_body_cap() {
    let mut cfg = Config::default();
    cfg.services.push(service("web", 0));
    let err = check_structure(&cfg).err().unwrap();
    assert!(matches!(err, ConfigError::Invalid(_)));
    match err {
        ConfigError::Invalid(m) => assert_eq!(m, "service \"web\": max_body_bytes must be > 0"),
        _ => unreachable!(),
    }
}

#[test]
fn well_formed_config_passes_structure_check() {
    let mut cfg = Config::default();
    cfg.services.push(service("web", 65536));
    cfg.services.push(service("api", 1));
    assert!(check_structure(&cfg).is_ok());
}

#[test]
fn duplicate_name_reported_before_zero_cap() {
    let mut cfg = Config::default();
    cfg.services.push(service("a", 10));
    cfg.services.push(service("a", 0));
    match check_structure(&cfg) {
        Err(ConfigError::Invalid(m)) => assert_eq!(m, "duplicate service name \"a\""),
        _ => panic!("expected Invalid"),
    }
}

#[test]
fn pipeline_snapshot_returns_some_for_known_service() {
    let mut cfg = Config::default();
    cfg.services.push(service("svc", 1024));
    let ruleset = RuleSet::empty_for(cfg);
    let idx = ruleset.service_index("svc");
    assert!(idx.is_some());
    assert!(ruleset.pipeline_for(idx.unwrap()).is_empty());
}

#[test]
fn pipeline_snapshot_returns_none_for_unknown_service() {
    let ruleset = RuleSet::empty_for(Config::default());
    assert!(ruleset.service_index("missing").is_none());
    assert!(ruleset.services().is_empty());
}
