use minos::sidecar::{
    build_request, decode_frame_len, default_timeout_ms, encode_frame, sidecar_layout,
    sidecar_verdict, CodecError, PythonSidecarKind, Response, MAX_FRAME_BYTES,
};
use minos::venv::{
    join_path, venv_hash, venv_path, InstallAction, InstallEvent, InstallStage, Installer,
};
use minos::{Direction, FilterError, Packet, ParsedHttp, Verdict};

#[test]
fn response_pass_id_accessor_works() {
    let r = Response::Pass { id: 7 };
    assert_eq!(r.id(), 7);
    let r = Response::Block {
        id: 8,
        reason: "x".into(),
    };
    assert_eq!(r.id(), 8);
}

#[test]
fn frame_prefix_is_big_endian_length() {
    let f = encode_frame(b"hello").unwrap();
    assert_eq!(f, vec![0, 0, 0, 5, b'h', b'e', b'l', b'l', b'o']);
    assert_eq!(decode_frame_len([0, 0, 0, 5]).unwrap(), 5);
    assert_eq!(decode_frame_len([0, 0, 1, 2]).unwrap(), 258);
}

#[test]
fn read_rejects_oversized_frame() {
    let err = decode_frame_len(50_000_000u32.to_be_bytes()).err().unwrap();
    assert!(matches!(err, CodecError::Oversized(50_000_000)));
    assert_eq!(err.message(), "oversized frame: 50000000 bytes");
    assert_eq!(
        decode_frame_len(MAX_FRAME_BYTES.to_be_bytes()).unwrap(),
        8 * 1024 * 1024
    );
    let big = vec![0u8; (MAX_FRAME_BYTES as usize) + 1];
    assert!(matches!(
        encode_frame(&big),
        Err(CodecError::Oversized(n)) if n == MAX_FRAME_BYTES + 1
    ));
}

#[test]
fn write_then_read_round_trips() {
    let body = br#"{"id":42,"direction":"inbound","kind":"raw","bytes_b64":"aGk="}"#;
    let frame = encode_frame(body).unwrap();
    let len = decode_frame_len([frame[0], frame[1], frame[2], frame[3]]).unwrap();
    assert_eq!(len, body.len());
    assert_eq!(&frame[4..], &body[..]);
}

#[test]
fn raw_request_carries_base64_bytes() {
    let p = Packet::Raw {
        bytes: b"hello",
        direction: Direction::Inbound,
    };
    let r = build_request(&p);
    assert_eq!(r.id, 0);
    assert_eq!(r.direction, "inbound");
    assert_eq!(r.kind, "raw");
    assert_eq!(r.bytes_b64, "aGVsbG8=");
    assert!(r.http.is_none());
}

#[test]
fn http_request_carries_fields_and_base64_body() {
    let req = ParsedHttp::new(
        "POST",
        "/login",
        vec![("Host".into(), "x".into())],
        b"hi".to_vec(),
    );
    let p = Packet::Http {
        req: &req,
        direction: Direction::Outbound,
    };
    let r = build_request(&p);
    assert_eq!(r.direction, "outbound");
    assert_eq!(r.kind, "http");
    assert_eq!(r.bytes_b64, "");
    let h = r.http.unwrap();
    assert_eq!(h.method, "POST");
    assert_eq!(h.path, "/login");
    assert_eq!(h.headers, vec![("Host".to_string(), "x".to_string())]);
    assert_eq!(h.body_b64, "aGk=");
}

#[test]
fn sidecar_reply_maps_to_verdict() {
    assert_eq!(sidecar_verdict(Some(Response::Pass { id: 1 }), false), Verdict::Pass);
    assert_eq!(sidecar_verdict(Some(Response::Pass { id: 1 }), true), Verdict::Pass);
    assert_eq!(sidecar_verdict(None, false), Verdict::Pass);
    assert_eq!(
        sidecar_verdict(None, true),
        Verdict::Block {
            reason: "sidecar unavailable (fail-closed)".into()
        }
    );
    for fail_closed in [false, true] {
        assert_eq!(
            sidecar_verdict(
                Some(Response::Block {
                    id: 2,
                    reason: "nope".into()
                }),
                fail_closed
            ),
            Verdict::Block {
                reason: "nope".into()
            }
        );
    }
    assert_eq!(default_timeout_ms(), 10);
    assert_eq!(PythonSidecarKind::NAME, "python_sidecar");
}

#[test]
fn sidecar_files_are_laid_out_by_service() {
    let l = sidecar_layout("/var/lib/minos/venvs/abc", "/run/minos/sidecars", "web");
    assert_eq!(l.python, "/var/lib/minos/venvs/abc/bin/python");
    assert_eq!(l.wrapper, "/var/lib/minos/venvs/abc/minos_wrapper.py");
    assert_eq!(l.script, "/run/minos/sidecars/web.py");
    assert_eq!(l.socket, "/run/minos/sidecars/web.sock");
}

#[test]
fn identical_requirements_hash_identically() {
    let a = venv_hash(b"requests==2.31\nhttpx==0.27\n");
    let b = venv_hash(b"requests==2.31\nhttpx==0.27\n");
    assert_eq!(a, b);
    assert_eq!(a.len(), 64);
}

#[test]
fn whitespace_differences_change_hash() {
    let a = venv_hash(b"requests==2.31\n");
    let b = venv_hash(b"requests==2.31");
    assert_ne!(a, b);
}

#[test]
fn venv_hash_is_hex_sha256() {
    assert_eq!(
        venv_hash(b""),
        "e3b0c44298fc1c149afbf4c8996fb92427ae41e4649b934ca495991b7852b855"
    );
    assert_eq!(
        venv_hash(b"abc"),
        "ba7816bf8f01cfea414140de5dae2223b00361a396177a9cb410ff61f20015ad"
    );
}

#[test]
fn venv_path_is_root_plus_hash() {
    let p = venv_path("/var/lib/minos/venvs", "abcd1234");
    assert_eq!(
        std::path::PathBuf::from(p),
        std::path::PathBuf::from("/var/lib/minos/venvs/abcd1234")
    );
}

#[test]
fn path_join_follows_path_join() {
    for (a, b) in [
        ("/root", "x"),
        ("/root/", "x"),
        ("", "x"),
        ("/root", "/abs"),
        ("rel", "y"),
    ] {
        assert_eq!(
            std::path::PathBuf::from(join_path(a, b)),
            std::path::Path::new(a).join(b)
        );
    }
}

fn finish(a: InstallAction) -> Result<minos::venv::InstallOutcome, FilterError> {
    match a {
        InstallAction::Finish(r) => r,
        other => panic!("expected Finish, got {other:?}"),
    }
}

#[test]
fn installer_stops_when_uv_is_missing() {
    let (mut i, a) = Installer::new("/venvs", b"");
    assert!(matches!(a, InstallAction::FindUv));
    let r = finish(i.step(InstallEvent::UvFound(false)));
    assert!(matches!(r, Err(FilterError::UvNotFound)));
    assert_eq!(i.current_stage(), InstallStage::Finished);
}

#[test]
fn installer_reports_cached_venv() {
    let (mut i, _) = Installer::new("/venvs", b"");
    let hash = venv_hash(b"");
    match i.step(InstallEvent::UvFound(true)) {
        InstallAction::CheckExists { path } => {
            assert_eq!(path, format!("/venvs/{hash}/.minos-installed"))
        }
        other => panic!("unexpected {other:?}"),
    }
    match i.step(InstallEvent::MarkerExists(true)) {
        InstallAction::Report { line } => assert_eq!(line, "(cached)"),
        other => panic!("unexpected {other:?}"),
    }
    let out = finish(i.step(InstallEvent::Done)).unwrap();
    assert_eq!(out.path, format!("/venvs/{hash}"));
    assert_eq!(out.log, "(cached)");
}

#[test]
fn installer_runs_uv_and_logs_every_line() {
    let (mut i, _) = Installer::new("/venvs", b"requests\n");
    let dir = format!("/venvs/{}", venv_hash(b"requests\n"));
    i.step(InstallEvent::UvFound(true));
    match i.step(InstallEvent::MarkerExists(false)) {
        InstallAction::CreateDir { dir } => assert_eq!(dir, "/venvs"),
        other => panic!("unexpected {other:?}"),
    }
    match i.step(InstallEvent::Done) {
        InstallAction::RunUv { banner, args } => {
            assert_eq!(banner, format!("$ uv venv {dir}"));
            assert_eq!(args, vec!["venv".to_string(), dir.clone()]);
        }
        other => panic!("unexpected {other:?}"),
    }
    assert!(matches!(
        i.step(InstallEvent::Line("Creating venv".into())),
        InstallAction::Continue
    ));
    match i.step(InstallEvent::Exited(true)) {
        InstallAction::WriteFile { path, contents } => {
            assert_eq!(path, format!("{dir}/requirements.txt"));
            assert_eq!(contents, b"requests\n".to_vec());
        }
        other => panic!("unexpected {other:?}"),
    }
    match i.step(InstallEvent::Done) {
        InstallAction::RunUv { banner, args } => {
            assert_eq!(banner, format!("$ uv pip install -r {dir}/requirements.txt"));
            assert_eq!(
                args,
                vec![
                    "pip".to_string(),
                    "install".to_string(),
                    "--python".to_string(),
                    format!("{dir}/bin/python"),
                    "-r".to_string(),
                    format!("{dir}/requirements.txt"),
                ]
            );
        }
        other => panic!("unexpected {other:?}"),
    }
    i.step(InstallEvent::Line("Installed 1 package".into()));
    match i.step(InstallEvent::Exited(true)) {
        InstallAction::WriteFile { path, contents } => {
            assert_eq!(path, format!("{dir}/.minos-installed"));
            assert!(contents.is_empty());
        }
        other => panic!("unexpected {other:?}"),
    }
    let out = finish(i.step(InstallEvent::Done)).unwrap();
    assert_eq!(out.path, dir);
    assert_eq!(
        out.log,
        format!(
            "$ uv venv {dir}\nCreating venv\n$ uv pip install -r {dir}/requirements.txt\nInstalled 1 package\n"
        )
    );
}

#[test]
fn installer_failure_carries_the_log() {
    let (mut i, _) = Installer::new("/venvs", b"x");
    i.step(InstallEvent::UvFound(true));
    i.step(InstallEvent::MarkerExists(false));
    i.step(InstallEvent::Done);
    i.step(InstallEvent::Line("error: boom".into()));
    match finish(i.step(InstallEvent::Exited(false))) {
        Err(FilterError::UvInstallFailed(log)) => {
            assert!(log.ends_with("error: boom\n"));
            assert!(log.starts_with("$ uv venv /venvs/"));
        }
        other => panic!("unexpected {other:?}"),
    }
    let (mut j, _) = Installer::new("/venvs", b"x");
    j.step(InstallEvent::UvFound(true));
    j.step(InstallEvent::MarkerExists(false));
    assert!(j.fits(&InstallEvent::Failed(std::io::Error::other("denied"))));
    assert!(!j.fits(&InstallEvent::Line("x".into())));
    let r = finish(j.step(InstallEvent::Failed(std::io::Error::other("denied"))));
    assert!(matches!(r, Err(FilterError::Io(_))));
}
