use penguinwave::daemon::framing::{frame_step, FrameStep};
use penguinwave::daemon::notify::{notify_target, ready, stopping};
use penguinwave::daemon::ratelimit::{RateLimiter, BURST};
use penguinwave::daemon::session::{
    action_error, handle, hello, line_step, on_line, ParsedFrame, SessionAction, SessionReply, Subscription,
};
use penguinwave::proto::{Request, Response};
use penguinwave::daemon::socket::{check_socket_path_len, socket_path, MAX_SOCKET_PATH};
use penguinwave::daemon::supervisor::{ProbeAction, Supervisor, BACKOFF_MAX_MS, PROBE_INTERVAL_MS};
use penguinwave::events::Event;
use penguinwave::proto::{ChatMix, EqState, ErrorKind, MAX_FRAME_BYTES};

const NANOS_PER_SEC: u64 = 1_000_000_000;

#[test]
fn a_burst_is_allowed_then_refused() {
    let mut limiter = RateLimiter::new();
    let now = 5 * NANOS_PER_SEC;
    for _ in 0..BURST as usize {
        assert!(limiter.allow_at(now));
    }
    assert!(!limiter.allow_at(now));
}

#[test]
fn tokens_refill_over_time() {
    let mut limiter = RateLimiter::new();
    let start = 5 * NANOS_PER_SEC;
    for _ in 0..BURST as usize {
        limiter.allow_at(start);
    }
    assert!(!limiter.allow_at(start));
    assert!(limiter.allow_at(start + NANOS_PER_SEC));
}

#[test]
fn one_token_takes_five_milliseconds_to_refill() {
    let mut limiter = RateLimiter::default();
    for _ in 0..BURST as usize {
        limiter.allow_at(0);
    }
    assert!(!limiter.allow_at(4_999_999));
    assert!(limiter.allow_at(5_000_000));
    assert!(!limiter.allow_at(5_000_000));
}

#[test]
fn the_response_id_echoes_the_request_id() {
    assert_eq!(
        on_line(false, true, ParsedFrame::Request { v: 1, id: 4242 }),
        SessionAction::Dispatch { id: 4242 }
    );
}

#[test]
fn a_wrong_protocol_version_is_refused_and_closes_the_session() {
    assert_eq!(
        on_line(false, true, ParsedFrame::Request { v: 99, id: 1 }),
        SessionAction::RejectAndClose {
            id: 1,
            kind: ErrorKind::VersionMismatch
        }
    );
    let action = on_line(false, true, ParsedFrame::Request { v: 99, id: 1 });
    let e = action_error(action, "").expect("expected error");
    assert_eq!(e.kind, ErrorKind::VersionMismatch);
    assert_eq!(e.supported, Some((1, 1)));
    assert!(!e.retryable);
}

#[test]
fn malformed_frames_are_answered_and_the_session_survives() {
    assert_eq!(
        on_line(false, true, ParsedFrame::Malformed { id: None }),
        SessionAction::Reject {
            id: 0,
            kind: ErrorKind::BadRequest
        }
    );
    assert_eq!(
        on_line(false, true, ParsedFrame::Malformed { id: Some(77) }),
        SessionAction::Reject {
            id: 77,
            kind: ErrorKind::BadRequest
        }
    );
}

#[test]
fn a_recoverable_id_is_echoed_on_a_malformed_frame() {
    assert_eq!(
        on_line(false, true, ParsedFrame::Malformed { id: Some(77) }),
        SessionAction::Reject {
            id: 77,
            kind: ErrorKind::BadRequest
        }
    );
    assert_eq!(
        on_line(false, true, ParsedFrame::Malformed { id: Some(0x1_0000_0005) }),
        SessionAction::Reject {
            id: 5,
            kind: ErrorKind::BadRequest
        }
    );
}

#[test]
fn an_empty_line_is_ignored() {
    assert_eq!(
        on_line(true, true, ParsedFrame::Malformed { id: None }),
        SessionAction::Skip
    );
    assert_eq!(
        on_line(true, false, ParsedFrame::Request { v: 1, id: 2 }),
        SessionAction::Skip
    );
}

#[test]
fn a_flood_closes_the_session() {
    assert_eq!(
        on_line(false, false, ParsedFrame::Request { v: 1, id: 2 }),
        SessionAction::RejectAndClose {
            id: 0,
            kind: ErrorKind::BadRequest
        }
    );
}

#[test]
fn an_unsupported_hello_version_is_refused() {
    let e = hello(42, "0.3.0").unwrap_err();
    assert_eq!(e.kind, ErrorKind::VersionMismatch);
    assert_eq!(e.supported, Some((1, 1)));
    let h = hello(1, "0.3.0").unwrap();
    assert_eq!(h.proto, (1, 1));
    assert_eq!(h.daemon, "0.3.0");
    assert_eq!(h.caps, vec!["events", "eq", "chatmix"]);
}

#[test]
fn events_reach_only_subscribed_sessions() {
    let mut subscriber = Subscription::default();
    let silent = Subscription::default();
    subscriber.subscribe(vec!["*".to_string()]);

    let event = Event::<f32>::ChatmixChanged(ChatMix {
        value: 70,
        manual: true,
    });
    assert_eq!(event.name(), "chatmix.changed");
    assert!(subscriber.wants(&event));
    assert!(!silent.wants(&event));
}

#[test]
fn a_mutation_echoes_back_to_the_client_that_made_it() {
    let mut conn = Subscription::default();
    conn.subscribe(vec!["chatmix.changed".to_string()]);
    assert!(conn.wants(&Event::<f32>::ChatmixChanged(ChatMix {
        value: 25,
        manual: true
    })));
}

#[test]
fn a_filtered_subscription_drops_other_events() {
    let mut conn = Subscription::default();
    conn.subscribe(vec!["eq.state_changed".to_string()]);
    assert!(!conn.wants(&Event::<f32>::ChatmixChanged(ChatMix {
        value: 15,
        manual: true
    })));
    let state = Event::EqStateChanged(EqState::<f32> {
        safe_mode: false,
        chains: vec![],
    });
    assert!(conn.wants(&state));
    conn.subscribe(vec![]);
    assert!(!conn.wants(&state));
}

fn feed(buf: &mut Vec<u8>, input: &[u8], max: usize) -> (Option<Vec<u8>>, usize) {
    // Feed `input` in chunks of three bytes, as a reader might.
    let mut pos = 0;
    loop {
        let end = (pos + 3).min(input.len());
        match frame_step(buf, &input[pos..end], max) {
            FrameStep::Done { consumed } => return (Some(buf.clone()), pos + consumed),
            FrameStep::More { consumed } => pos += consumed,
            FrameStep::Eof | FrameStep::TooLong => return (None, pos),
        }
    }
}

#[test]
fn frames_are_split_at_newlines() {
    let mut buf = Vec::new();
    let (frame, used) = feed(&mut buf, b"{\"v\":1}\nrest", 64);
    assert_eq!(frame, Some(b"{\"v\":1}".to_vec()));
    assert_eq!(used, 8);
}

#[test]
fn an_oversized_frame_closes_the_session_without_killing_the_server() {
    let mut buf = Vec::new();
    let huge = vec![b'x'; MAX_FRAME_BYTES + 1024];
    let mut pos = 0;
    let mut too_long = false;
    while pos < huge.len() {
        let end = (pos + 4096).min(huge.len());
        match frame_step(&mut buf, &huge[pos..end], MAX_FRAME_BYTES) {
            FrameStep::More { consumed } => pos += consumed,
            FrameStep::TooLong => {
                too_long = true;
                break;
            }
            other => panic!("unexpected {other:?}"),
        }
    }
    assert!(too_long);
    assert!(buf.len() <= MAX_FRAME_BYTES);
}

#[test]
fn end_of_stream_ends_a_partial_frame_or_the_session() {
    let mut buf = Vec::new();
    assert_eq!(frame_step(&mut buf, b"", 10), FrameStep::Eof);
    assert_eq!(frame_step(&mut buf, b"ab", 10), FrameStep::More { consumed: 2 });
    assert_eq!(frame_step(&mut buf, b"", 10), FrameStep::Done { consumed: 0 });
    assert_eq!(buf, b"ab".to_vec());
}

#[test]
fn the_socket_path_requires_xdg_runtime_dir() {
    assert!(socket_path(None).unwrap_err().contains("XDG_RUNTIME_DIR"));
    assert_eq!(
        socket_path(Some("/run/user/1000")).unwrap(),
        "/run/user/1000/penguinwave/daemon.sock"
    );
}

#[test]
fn an_overlong_socket_path_is_refused_with_a_usable_message() {
    let deep = format!("/tmp/deep/{}", "x".repeat(120));
    let path = socket_path(Some(&deep)).unwrap();
    let err = check_socket_path_len(path.len()).unwrap_err();
    assert!(err.contains("XDG_RUNTIME_DIR"));
    assert!(check_socket_path_len(MAX_SOCKET_PATH).is_ok());
    assert_eq!(
        check_socket_path_len(200).unwrap_err(),
        "socket path is 200 bytes, over the 107-byte unix socket limit; XDG_RUNTIME_DIR is too deep"
    );
}

#[test]
fn notify_messages_and_abstract_addresses() {
    assert_eq!(ready(), "READY=1");
    assert_eq!(stopping(), "STOPPING=1");
    assert_eq!(notify_target("@/org/sd"), "\0/org/sd");
    assert_eq!(notify_target("/run/systemd/notify"), "/run/systemd/notify");
}

#[test]
fn the_supervisor_backs_off_then_resyncs_once() {
    let mut s = Supervisor::new();
    assert_eq!(s.on_probe(true), ProbeAction::Idle);
    assert_eq!(s.on_probe(false), ProbeAction::ReportDown);
    assert_eq!(s.backoff_ms(), 2 * PROBE_INTERVAL_MS);
    for _ in 0..10 {
        s.on_probe(false);
    }
    assert_eq!(s.backoff_ms(), BACKOFF_MAX_MS);
    assert!(s.was_down());
    assert_eq!(s.on_probe(true), ProbeAction::Resync);
    assert_eq!(s.backoff_ms(), PROBE_INTERVAL_MS);
    s.on_resync(true);
    assert!(!s.was_down());
}

#[test]
fn how_input_is_chunked_does_not_change_the_frame() {
    let input = b"{\"v\":1,\"id\":7}\n{\"v\":1}\n";
    let mut whole = Vec::new();
    assert_eq!(
        frame_step(&mut whole, input, 64),
        FrameStep::Done { consumed: 15 }
    );
    for size in 1..8 {
        let mut buf = Vec::new();
        let mut pos = 0;
        loop {
            let end = (pos + size).min(input.len());
            match frame_step(&mut buf, &input[pos..end], 64) {
                FrameStep::Done { consumed } => {
                    pos += consumed;
                    break;
                }
                FrameStep::More { consumed } => pos += consumed,
                other => panic!("unexpected {other:?}"),
            }
        }
        assert_eq!(buf, whole);
        assert_eq!(pos, 15);
    }
}

#[test]
fn session_methods_are_answered_by_the_daemon_not_core() {
    let mut sub = Subscription::default();
    match handle::<f32>(
        &mut sub,
        "0.3.0",
        Request::SessionHello {
            client: "test".to_string(),
            proto: 1,
        },
    ) {
        SessionReply::Answer(Ok(Response::Hello(h))) => assert_eq!(h.proto, (1, 1)),
        other => panic!("unexpected {other:?}"),
    }
    assert!(matches!(
        handle::<f32>(
            &mut sub,
            "0.3.0",
            Request::SessionHello {
                client: "test".to_string(),
                proto: 42,
            },
        ),
        SessionReply::Answer(Err(e)) if e.kind == ErrorKind::VersionMismatch
    ));
    assert!(matches!(
        handle::<f32>(
            &mut sub,
            "0.3.0",
            Request::SessionSubscribe { events: vec![] }
        ),
        SessionReply::Answer(Ok(Response::Empty))
    ));
    assert_eq!(sub.0, Some(vec![]));
    assert!(matches!(
        handle::<f32>(&mut sub, "0.3.0", Request::SinkDefault),
        SessionReply::Dispatch(Request::SinkDefault)
    ));
}

#[test]
fn requests_may_be_pipelined() {
    let input = b"{\"id\":1}\n{\"id\":2}\n";
    let mut first = Vec::new();
    let consumed = match frame_step(&mut first, input, 64) {
        FrameStep::Done { consumed } => consumed,
        other => panic!("unexpected {other:?}"),
    };
    assert_eq!(first, b"{\"id\":1}".to_vec());
    let mut second = Vec::new();
    assert_eq!(
        frame_step(&mut second, &input[consumed..], 64),
        FrameStep::Done { consumed: 9 }
    );
    assert_eq!(second, b"{\"id\":2}".to_vec());
}

#[test]
fn refusals_carry_their_message_and_flags() {
    let rate = on_line(false, false, ParsedFrame::Request { v: 1, id: 2 });
    let e = action_error(rate, "unused").unwrap();
    assert_eq!(e.kind, ErrorKind::BadRequest);
    assert_eq!(e.msg, "request rate limit exceeded");
    assert!(!e.retryable);
    assert_eq!(e.supported, None);
    let bad = on_line(false, true, ParsedFrame::Malformed { id: Some(3) });
    let e = action_error(bad, "expected value at line 1 column 1").unwrap();
    assert_eq!(e.msg, "expected value at line 1 column 1");
    assert_eq!(e.kind.exit_code(), 4);
    assert_eq!(action_error(SessionAction::Skip, ""), None);
    assert_eq!(action_error(SessionAction::Dispatch { id: 1 }, ""), None);
    let v = hello(42, "0.3.0").unwrap_err();
    assert_eq!(v.msg, "unsupported protocol version; supported: 1..1");
    assert_eq!(v.kind.exit_code(), 3);
    assert!(ErrorKind::PipeWireUnavailable.retryable());
    assert!(!ErrorKind::Internal.retryable());
}

#[test]
fn list_events_carry_the_new_list() {
    let mut conn = Subscription::default();
    conn.subscribe(vec!["sink.list_changed".to_string()]);
    let sinks = Event::<f32>::SinkListChanged { sinks: vec![] };
    assert_eq!(sinks.name(), "sink.list_changed");
    assert!(conn.wants(&sinks));
    let streams = Event::<f32>::StreamListChanged { streams: vec![] };
    assert_eq!(streams.name(), "stream.list_changed");
    assert!(!conn.wants(&streams));
}

#[test]
fn a_corpus_of_hostile_frames_never_takes_the_server_down() {
    // Lines that are not request frames: answered with the id they carry
    // where one can be read back, else 0; none closes the session.
    let rejected: Vec<(Vec<u8>, u32)> = vec![
        (b"{".to_vec(), 0),
        (b"}".to_vec(), 0),
        (b"[[[[[[[[[[".to_vec(), 0),
        (b"null".to_vec(), 0),
        (b"true".to_vec(), 0),
        (b"-0".to_vec(), 0),
        (b"\"just a string\"".to_vec(), 0),
        (b"{\"v\":1}".to_vec(), 0),
        (b"{\"v\":1,\"id\":1}".to_vec(), 1),
        (b"{\"v\":-1,\"id\":1,\"method\":\"sink.default\"}".to_vec(), 1),
        (b"{\"v\":1,\"id\":-1,\"method\":\"sink.default\"}".to_vec(), 0),
        (b"{\"v\":1,\"id\":99999999999999999999,\"method\":\"sink.default\"}".to_vec(), 0),
        (b"{\"v\":1,\"id\":1,\"method\":\"sink.set_volume\",\"params\":{\"sink\":\"x\",\"pct\":9999}}".to_vec(), 1),
        (b"{\"v\":1,\"id\":1,\"method\":\"eq.set_preamp\",\"params\":{\"chain\":\"game\",\"preamp_db\":NaN}}".to_vec(), 0),
        (vec![0xff, 0xfe, 0xfd], 0),
        (vec![b'{', 0x00, b'}'], 0),
        (format!("{}{}", "[".repeat(2048), "]".repeat(2048)).into_bytes(), 0),
    ];
    for (line, id) in &rejected {
        assert_eq!(
            line_step(line, true, None),
            SessionAction::Reject { id: *id, kind: ErrorKind::BadRequest },
            "{:?}",
            String::from_utf8_lossy(line)
        );
    }
    // Empty lines are skipped; a well-formed request is dispatched.
    assert_eq!(line_step(b"", true, None), SessionAction::Skip);
    assert_eq!(
        line_step(b"{\"v\":1,\"id\":1,\"method\":\"sink.default\"}", true, Some((1, 1))),
        SessionAction::Dispatch { id: 1 }
    );
}

#[test]
fn a_recoverable_id_is_read_back_from_the_raw_line() {
    assert_eq!(
        line_step(br#"{"v":1,"id":77,"method":"bogus"}"#, true, None),
        SessionAction::Reject { id: 77, kind: ErrorKind::BadRequest }
    );
    assert_eq!(
        line_step(br#"{"v":1,"id":4294967301,"method":"bogus"}"#, true, None),
        SessionAction::Reject { id: 5, kind: ErrorKind::BadRequest }
    );
    assert_eq!(
        line_step(br#"[{"id":3}]"#, true, None),
        SessionAction::Reject { id: 0, kind: ErrorKind::BadRequest }
    );
    // Over the rate cap the line is not read at all.
    assert_eq!(
        line_step(br#"{"id":77}"#, false, None),
        SessionAction::RejectAndClose { id: 0, kind: ErrorKind::BadRequest }
    );
    assert_eq!(
        line_step(br#"{"v":99,"id":1,"method":"sink.default"}"#, true, Some((99, 1))),
        SessionAction::RejectAndClose { id: 1, kind: ErrorKind::VersionMismatch }
    );
}
