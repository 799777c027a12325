use std::sync::Arc;

use minos::config::{add_built_filter, ConfigError, FilterInstanceCfg, ServiceConfig};
use minos::executor::{execute, run_pipeline, LogSender};
use minos::filter_error::unknown_kind_error;
use minos::http_request::{ReadStep, RequestReader};
use minos::proxy::{
    bad_request_response, handler_for, service_context, static_upstream, Burst, Handler,
    TcpHandler, DEFAULT_TCP_IDLE_MS,
};
use minos::wire::{block_response_bytes, default_sample_cap, http_reason, sample_from_packet, serialize_request};
use minos::{
    BlockResponse, Direction, Filter, FilterInstance, NetAddr, Packet, ParsedHttp, ProtocolKind,
    ProxyError, ProxyMode, Verdict,
};
use tokio::sync::mpsc;

fn req() -> ParsedHttp {
    ParsedHttp {
        method: "POST".into(),
        path: "/api/x".into(),
        headers: vec![
            ("Host".into(), "y".into()),
            ("Content-Length".into(), "5".into()),
        ],
        body: b"hello".to_vec(),
    }
}

#[test]
fn serialize_includes_request_line_headers_and_body() {
    let buf = serialize_request(&req());
    let s = std::str::from_utf8(&buf).unwrap();
    assert!(s.starts_with("POST /api/x HTTP/1.1\r\n"), "actual: {s:?}");
    assert!(s.contains("Host: y\r\n"));
    assert!(s.contains("Content-Length: 5\r\n"));
    assert!(s.ends_with("\r\n\r\nhello"));
}

#[test]
fn serialize_adds_connection_close_when_client_did_not() {
    let buf = serialize_request(&req());
    let s = std::str::from_utf8(&buf).unwrap();
    assert!(s.contains("Connection: close\r\n"));
}

#[test]
fn serialize_preserves_client_connection_header() {
    let mut r = req();
    r.headers.push(("Connection".into(), "keep-alive".into()));
    let buf = serialize_request(&r);
    let s = std::str::from_utf8(&buf).unwrap();
    assert!(s.contains("Connection: keep-alive"));
    assert_eq!(s.matches("Connection:").count(), 1);
}

#[test]
fn serialize_exact_bytes() {
    let buf = serialize_request(&req());
    assert_eq!(
        buf,
        b"POST /api/x HTTP/1.1\r\nHost: y\r\nContent-Length: 5\r\nConnection: close\r\n\r\nhello"
            .to_vec()
    );
}

#[test]
fn raw_sample_is_capped() {
    let bytes = vec![b'a'; 100];
    let p = Packet::Raw {
        bytes: &bytes,
        direction: Direction::Inbound,
    };
    let s = sample_from_packet(&p, 16);
    assert_eq!(s.len(), 16);
    assert!(s.iter().all(|b| *b == b'a'));
}

#[test]
fn http_sample_is_request_line_plus_body_truncated() {
    let req = ParsedHttp {
        method: "GET".into(),
        path: "/x".into(),
        headers: vec![("Host".into(), "y".into())],
        body: b"payload".to_vec(),
    };
    let p = Packet::Http {
        req: &req,
        direction: Direction::Inbound,
    };
    let s = sample_from_packet(&p, 1024);
    let s = std::str::from_utf8(&s).unwrap();
    assert!(s.contains("GET /x"));
    assert!(s.contains("payload"));
}

#[test]
fn http_sample_exact_and_capped() {
    let req = ParsedHttp {
        method: "GET".into(),
        path: "/x".into(),
        headers: vec![("Host".into(), "y".into())],
        body: b"payload".to_vec(),
    };
    let p = Packet::Http {
        req: &req,
        direction: Direction::Inbound,
    };
    assert_eq!(sample_from_packet(&p, 1024), b"GET /x\nHost: y\n\npayload".to_vec());
    assert_eq!(sample_from_packet(&p, 5), b"GET /".to_vec());
    assert_eq!(default_sample_cap(), 1024);
}

#[test]
fn proxy_error_display_for_each_variant_is_nonempty() {
    let cases = [
        ProxyError::Io(std::io::Error::other("x")),
        ProxyError::HttpParse("malformed".into()),
        ProxyError::BodyTooLarge { limit: 10, got: 11 },
        ProxyError::UpstreamConnect(NetAddr::V4 {
            ip: 0x7f00_0001,
            port: 1,
        }),
        ProxyError::TransparentLookup("no SO_ORIGINAL_DST".into()),
    ];
    for c in cases {
        assert!(!c.message().is_empty());
    }
}

#[test]
fn proxy_error_messages() {
    assert_eq!(
        ProxyError::BodyTooLarge { limit: 10, got: 11 }.message(),
        "body too large: 11B > limit 10B"
    );
    assert_eq!(
        ProxyError::UpstreamConnect(NetAddr::V4 {
            ip: 0x7f00_0001,
            port: 1
        })
        .message(),
        "upstream connect: 127.0.0.1:1"
    );
    assert_eq!(ProxyError::HttpParse("m".into()).message(), "http parse: m");
}

struct AlwaysBlock {
    reason: &'static str,
}
impl Filter for AlwaysBlock {
    fn kind(&self) -> &'static str {
        "always-block"
    }
    fn accepts(&self, _: &Packet) -> bool {
        true
    }
    fn inspect(&self, _: &Packet) -> Verdict {
        Verdict::Block {
            reason: self.reason.to_string(),
        }
    }
}

struct AlwaysPass;
impl Filter for AlwaysPass {
    fn kind(&self) -> &'static str {
        "always-pass"
    }
    fn accepts(&self, _: &Packet) -> bool {
        true
    }
    fn inspect(&self, _: &Packet) -> Verdict {
        Verdict::Pass
    }
}

fn instance(filter: Arc<dyn Filter>, dry_run: bool, on_in: bool, on_out: bool) -> FilterInstance {
    FilterInstance {
        id: 0,
        display_name: "test".into(),
        enabled: true,
        dry_run,
        on_inbound: on_in,
        on_outbound: on_out,
        filter,
    }
}

#[test]
fn empty_pipeline_passes() {
    let (tx, _rx) = mpsc::unbounded_channel();
    let bytes = b"hi";
    let p = Packet::Raw {
        bytes,
        direction: Direction::Inbound,
    };
    assert!(matches!(execute(&p, "svc", &[], &mut LogSender::new(tx.clone())), Verdict::Pass));
}

#[test]
fn block_short_circuits_remaining_filters() {
    let (tx, mut rx) = mpsc::unbounded_channel();
    let blocker = Arc::new(AlwaysBlock { reason: "nope" });
    let passer = Arc::new(AlwaysPass);
    let pipeline = vec![
        instance(blocker, false, true, true),
        instance(passer, false, true, true),
    ];
    let bytes = b"hi";
    let p = Packet::Raw {
        bytes,
        direction: Direction::Inbound,
    };
    let v = execute(&p, "svc", &pipeline, &mut LogSender::new(tx.clone()));
    assert!(matches!(v, Verdict::Block { .. }));
    let entry = rx.try_recv().expect("one log entry");
    assert_eq!(entry.reason, "nope");
    assert!(!entry.dry_run);
    assert!(rx.try_recv().is_err());
}

#[test]
fn dry_run_match_emits_log_but_continues() {
    let (tx, mut rx) = mpsc::unbounded_channel();
    let blocker = Arc::new(AlwaysBlock {
        reason: "would-block",
    });
    let pipeline = vec![instance(blocker, true, true, true)];
    let bytes = b"hi";
    let p = Packet::Raw {
        bytes,
        direction: Direction::Inbound,
    };
    let v = execute(&p, "svc", &pipeline, &mut LogSender::new(tx.clone()));
    assert!(matches!(v, Verdict::Pass));
    let entry = rx.try_recv().expect("dry-run log entry");
    assert!(entry.dry_run);
    assert!(rx.try_recv().is_err());
}

#[test]
fn disabled_filter_is_skipped() {
    let (tx, mut rx) = mpsc::unbounded_channel();
    let mut inst = instance(Arc::new(AlwaysBlock { reason: "x" }), false, true, true);
    inst.enabled = false;
    let bytes = b"hi";
    let p = Packet::Raw {
        bytes,
        direction: Direction::Inbound,
    };
    let v = execute(&p, "svc", &[inst], &mut LogSender::new(tx.clone()));
    assert!(matches!(v, Verdict::Pass));
    assert!(rx.try_recv().is_err());
}

#[test]
fn direction_off_skips() {
    let (tx, mut rx) = mpsc::unbounded_channel();
    let inst = instance(Arc::new(AlwaysBlock { reason: "x" }), false, false, true);
    let bytes = b"hi";
    let p = Packet::Raw {
        bytes,
        direction: Direction::Inbound,
    };
    let v = execute(&p, "svc", &[inst], &mut LogSender::new(tx.clone()));
    assert!(matches!(v, Verdict::Pass));
    assert!(rx.try_recv().is_err());
}

#[test]
fn log_entries_carry_the_instance_and_packet() {
    let mut first = instance(Arc::new(AlwaysBlock { reason: "dry" }), true, true, true);
    first.id = 7;
    let mut second = instance(Arc::new(AlwaysBlock { reason: "real" }), false, true, true);
    second.id = 9;
    let third = instance(Arc::new(AlwaysBlock { reason: "never" }), false, true, true);
    let p = Packet::Raw {
        bytes: b"payload",
        direction: Direction::Inbound,
    };
    let (v, entries) = run_pipeline(&p, "web", &[first, second, third]);
    assert_eq!(
        v,
        Verdict::Block {
            reason: "real".into()
        }
    );
    assert_eq!(entries.len(), 2);
    assert_eq!(entries[0].filter_id, 7);
    assert!(entries[0].dry_run);
    assert_eq!(entries[0].reason, "dry");
    assert_eq!(entries[1].filter_id, 9);
    assert!(!entries[1].dry_run);
    for e in &entries {
        assert_eq!(e.id, None);
        assert_eq!(e.service, "web");
        assert_eq!(e.direction, Direction::Inbound);
        assert_eq!(e.rule_kind, "always-block");
        assert_eq!(e.sample, b"payload".to_vec());
        assert!(e.ts > 0);
    }
}

fn read_all(max_body: usize, input: &[u8]) -> Result<ParsedHttp, ProxyError> {
    let mut r = RequestReader::new(max_body);
    for chunk in input.chunks(7) {
        if let ReadStep::Done(res) = r.feed(chunk) {
            return res;
        }
    }
    r.finish()
}

#[test]
fn reads_simple_get() {
    let parsed = read_all(1024, b"GET /x HTTP/1.1\r\nHost: y\r\n\r\n").unwrap();
    assert_eq!(parsed.method, "GET");
    assert_eq!(parsed.path, "/x");
    assert_eq!(
        parsed
            .headers
            .iter()
            .find(|(k, _)| k.eq_ignore_ascii_case("host"))
            .unwrap()
            .1,
        "y"
    );
    assert!(parsed.body.is_empty());
}

#[test]
fn reads_post_with_content_length() {
    let parsed =
        read_all(1024, b"POST / HTTP/1.1\r\nHost: y\r\nContent-Length: 5\r\n\r\nhello").unwrap();
    assert_eq!(parsed.body, b"hello");
}

#[test]
fn rejects_body_over_limit() {
    let err = read_all(10, b"POST / HTTP/1.1\r\nHost: y\r\nContent-Length: 100\r\n\r\n").unwrap_err();
    assert!(matches!(
        err,
        ProxyError::BodyTooLarge {
            limit: 10,
            got: 100
        }
    ));
}

#[test]
fn rejects_chunked() {
    let err =
        read_all(1024, b"POST / HTTP/1.1\r\nHost: y\r\nTransfer-Encoding: chunked\r\n\r\n").unwrap_err();
    assert!(matches!(err, ProxyError::HttpParse(_)));
}

#[test]
fn reader_reports_early_eof() {
    assert!(matches!(read_all(10, b""), Err(ProxyError::HttpParse(m)) if m == "eof before any bytes"));
    assert!(matches!(read_all(10, b"GET / HT"), Err(ProxyError::HttpParse(m)) if m == "eof before headers complete"));
    let short = read_all(1024, b"POST / HTTP/1.1\r\nContent-Length: 9\r\n\r\nabc").unwrap();
    assert_eq!(short.body, b"abc");
}

#[test]
fn writes_403_default() {
    let out = block_response_bytes(&BlockResponse::default());
    let s = String::from_utf8(out).unwrap();
    assert!(s.starts_with("HTTP/1.1 403"));
    assert!(s.contains("Content-Length: 0"));
    assert!(s.contains("Connection: close"));
}

#[test]
fn writes_custom_status_and_body() {
    let resp = BlockResponse::HttpStatus {
        status: 418,
        body: b"teapot".to_vec(),
        headers: vec![("X-Reason".into(), "blocked".into())],
    };
    let out = block_response_bytes(&resp);
    let s = String::from_utf8(out).unwrap();
    assert!(s.starts_with("HTTP/1.1 418"));
    assert!(s.contains("X-Reason: blocked"));
    assert!(s.contains("Content-Length: 6"));
    assert!(s.ends_with("teapot"));
    assert_eq!(
        s,
        "HTTP/1.1 418 I'm a teapot\r\nContent-Length: 6\r\nConnection: close\r\nX-Reason: blocked\r\n\r\nteapot"
    );
}

#[test]
fn close_is_written_as_default_403_for_http() {
    let s = String::from_utf8(block_response_bytes(&BlockResponse::Close)).unwrap();
    assert_eq!(
        s,
        "HTTP/1.1 403 Forbidden\r\nContent-Length: 0\r\nConnection: close\r\n\r\n"
    );
    assert_eq!(http_reason(404), "Not Found");
    assert_eq!(http_reason(299), "Forbidden");
}

#[test]
fn tcp_handler_keeps_idle_timeout() {
    assert_eq!(TcpHandler::new(50).idle_ms, 50);
    assert!(matches!(handler_for(ProtocolKind::Http), Handler::Http(_)));
    match handler_for(ProtocolKind::Tcp) {
        Handler::Tcp(h) => assert_eq!(h.idle_ms, DEFAULT_TCP_IDLE_MS),
        Handler::Http(_) => panic!("expected TCP handler"),
    }
}

#[test]
fn burst_ends_at_cap_or_eof() {
    let mut b = Burst::new(8);
    assert!(!b.push(b"abc"));
    assert!(b.push(b"defgh"));
    assert_eq!(b.into_bytes(), b"abcdefgh".to_vec());
    let mut e = Burst::new(100);
    assert!(!e.push(b"x"));
    assert!(e.push(b""));
    assert!(e.is_complete());
    assert_eq!(e.into_bytes(), b"x".to_vec());
    let mut i = Burst::new(100);
    i.push(b"yz");
    i.idle();
    assert!(i.is_complete());
}

#[test]
fn context_uses_override_or_default_block_response() {
    let up = NetAddr::V4 {
        ip: 0x7f00_0001,
        port: 5000,
    };
    let mut svc = minos::config::ServiceConfig {
        name: "svc".into(),
        mode: ProxyMode::Reverse {
            bind: NetAddr::V4 { ip: 0, port: 80 },
            upstream: up,
        },
        protocol: ProtocolKind::Http,
        pipeline: vec![],
        block_response_override: None,
        max_body_bytes: 1024,
    };
    let ctx = service_context(&svc, up);
    assert_eq!(ctx.service_name, "svc");
    assert_eq!(ctx.block_response, BlockResponse::default());
    assert_eq!(ctx.max_body_bytes, 1024);
    svc.block_response_override = Some(BlockResponse::Close);
    assert_eq!(service_context(&svc, up).block_response, BlockResponse::Close);
    assert_eq!(static_upstream(&svc.mode), Some(up));
    assert_eq!(
        static_upstream(&ProxyMode::Transparent {
            bind: NetAddr::V4 { ip: 0, port: 80 }
        }),
        None
    );
}

#[test]
fn bad_request_answer_is_400_with_message() {
    match bad_request_response(&ProxyError::HttpParse("no path".into())) {
        BlockResponse::HttpStatus {
            status,
            body,
            headers,
        } => {
            assert_eq!(status, 400);
            assert_eq!(body, b"bad request: http parse: no path".to_vec());
            assert!(headers.is_empty());
        }
        BlockResponse::Close => panic!("expected a status"),
    }
}

#[test]
fn rejects_body_without_content_length() {
    let mut r = RequestReader::new(1024);
    let step = r.feed(b"POST / HTTP/1.1\r\nHost: y\r\n\r\nhello");
    assert!(matches!(
        step,
        ReadStep::Done(Err(ProxyError::HttpParse(m))) if m == "missing content-length with a body"
    ));
    let mut r = RequestReader::new(1024);
    let step = r.feed(b"GET / HTTP/1.1\r\nHost: y\r\n\r\n");
    assert!(matches!(step, ReadStep::Done(Ok(p)) if p.body.is_empty()));
}

#[test]
fn sent_entries_are_the_run_entries_in_order() {
    let (tx, mut rx) = mpsc::unbounded_channel();
    let mut first = instance(Arc::new(AlwaysBlock { reason: "dry" }), true, true, true);
    first.id = 3;
    let mut second = instance(Arc::new(AlwaysBlock { reason: "real" }), false, true, true);
    second.id = 4;
    let p = Packet::Raw {
        bytes: b"abc",
        direction: Direction::Inbound,
    };
    let v = execute(&p, "svc", &[first, second], &mut LogSender::new(tx));
    assert_eq!(v, Verdict::Block { reason: "real".into() });
    let a = rx.try_recv().expect("dry-run entry");
    let b = rx.try_recv().expect("blocking entry");
    assert!(rx.try_recv().is_err());
    assert_eq!((a.filter_id, a.dry_run, a.reason.as_str()), (3, true, "dry"));
    assert_eq!((b.filter_id, b.dry_run, b.reason.as_str()), (4, false, "real"));
    for e in [&a, &b] {
        assert_eq!(e.service, "svc");
        assert_eq!(e.sample, b"abc".to_vec());
        assert_eq!(e.id, None);
    }
}

#[test]
fn a_dropped_receiver_keeps_the_verdict() {
    let (tx, rx) = mpsc::unbounded_channel();
    drop(rx);
    let pipeline = vec![instance(Arc::new(AlwaysBlock { reason: "nope" }), false, true, true)];
    let p = Packet::Raw {
        bytes: b"hi",
        direction: Direction::Inbound,
    };
    let v = execute(&p, "svc", &pipeline, &mut LogSender::new(tx));
    assert_eq!(v, Verdict::Block { reason: "nope".into() });
}

#[test]
fn pipeline_takes_settings_from_config_and_reports_first_failing_filter() {
    let entry = |id: u128, name: &str, dry_run: bool| FilterInstanceCfg {
        id,
        display_name: name.into(),
        kind: "always-block".into(),
        config: serde_json::Value::Null,
        enabled: true,
        dry_run,
        on_inbound: true,
        on_outbound: false,
    };
    let svc = ServiceConfig {
        name: "web".into(),
        mode: ProxyMode::Reverse {
            bind: NetAddr::V4 { ip: 0, port: 80 },
            upstream: NetAddr::V4 { ip: 0x7f00_0001, port: 5000 },
        },
        protocol: ProtocolKind::Http,
        pipeline: vec![entry(11, "first", true), entry(12, "second", false)],
        block_response_override: None,
        max_body_bytes: 1024,
    };
    let mut built = Vec::new();
    let first = instance(Arc::new(AlwaysBlock { reason: "x" }), false, false, true);
    assert!(add_built_filter(&svc, &mut built, Ok(first)).is_ok());
    assert_eq!(built.len(), 1);
    assert_eq!(built[0].id, 11);
    assert_eq!(built[0].display_name, "first");
    assert!(built[0].dry_run);
    assert!(built[0].on_inbound && !built[0].on_outbound);
    let r = add_built_filter(&svc, &mut built, Err(unknown_kind_error("nope")));
    match r {
        Err(ConfigError::FilterBuild { service, filter, .. }) => {
            assert_eq!(service, "web");
            assert_eq!(filter, "second");
        }
        other => panic!("expected FilterBuild, got {other:?}"),
    }
    assert_eq!(built.len(), 1);
}
