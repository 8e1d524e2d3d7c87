use solana_gun_quic_client::address::SocketAddr;
use solana_gun_quic_client::client::{
    after_send, apply_jitter, check_transaction_size, code_to_err, connect_host, connect_queue,
    connection_close_error, first_dial, handshake, handshake_line,
    handshake_reply_ok, is_reconnectable_send_error, is_terminal, map_close, next_backoff,
    preflight, send_on_timed, validate_token, DialOutcome, HandshakeExchange, Lookup, Reconnect,
    ReconnectStep, SendExchange, SendStep, Session, MAX_TOKEN_BYTES, MAX_TX_BYTES,
};
use solana_gun_quic_client::error::{
    ConnectionError, ConnectionErrorKind, WriteError, WriteErrorKind,
};
use solana_gun_quic_client::{
    ClientConfig, ConnectError, Duration, EndpointSource, FallbackReason, HandshakeError,
    ReconnectPolicy, SendError,
};

fn ended(kind: ConnectionErrorKind) -> ConnectionError {
    ConnectionError { kind, description: "the end".to_string() }
}

fn write_error(kind: WriteErrorKind) -> SendError {
    SendError::StreamWrite(WriteError { kind, description: "not written".to_string() })
}

/// A session with this policy.
fn session(policy: ReconnectPolicy) -> Session {
    let mut config = ClientConfig::default();
    config.reconnect = policy;
    let addr = SocketAddr::V4 { ipv4: 0x7f00_0001, port: 7000 };
    Session::open(addr, "localhost", "tok", EndpointSource::Manual, &config)
}

fn config_message(r: Result<(), ConnectError>) -> String {
    match r {
        Err(ConnectError::Config(m)) => m,
        other => panic!("expected a configuration error, got {other:?}"),
    }
}

#[test]
fn token_validation_rejects_malformed_tokens() {
    assert!(validate_token("good-token").is_ok());
    assert!(validate_token("").is_err());
    assert!(validate_token("has space").is_err());
    assert!(validate_token("has\nnewline").is_err());
    assert!(validate_token(&"a".repeat(MAX_TOKEN_BYTES + 1)).is_err());
    assert!(validate_token(&"a".repeat(MAX_TOKEN_BYTES)).is_ok());
}

#[test]
fn token_errors_say_what_is_wrong() {
    assert_eq!(config_message(validate_token("")), "token is empty");
    assert_eq!(
        config_message(validate_token(&"a".repeat(201))),
        "token is 201 bytes, exceeds maximum 200"
    );
    for bad in ["has space", "tab\there", "caf\u{e9}", "\u{7f}"] {
        assert_eq!(
            config_message(validate_token(bad)),
            "token must be printable ASCII with no spaces or control characters"
        );
    }
    // Length is counted in bytes, not in characters, and comes first.
    assert_eq!(
        config_message(validate_token(&"\u{e9}".repeat(101))),
        "token is 202 bytes, exceeds maximum 200"
    );
    let graphic: String = (0x21u8..=0x7e).map(char::from).collect();
    assert!(validate_token(&graphic).is_ok());
}

#[test]
fn handshake_reply_requires_exact_ok() {
    assert!(handshake_reply_ok(b"OK\n"));
    assert!(!handshake_reply_ok(b"OK"));
    assert!(!handshake_reply_ok(b"OKAY\n"));
    assert!(!handshake_reply_ok(b"NO\n"));
}

#[test]
fn handshake_line_is_prefix_token_newline() {
    assert_eq!(handshake_line("my-token"), b"SOLANA-GUN-QUIC/1 my-token\n".to_vec());
    let longest = "x".repeat(MAX_TOKEN_BYTES);
    let line = handshake_line(&longest);
    assert_eq!(line.len(), 18 + 200 + 1);
    assert_eq!(line.iter().filter(|b| **b == b'\n').count(), 1);
    assert_eq!(&line[18..line.len() - 1], longest.as_bytes());
}

#[test]
fn close_codes_have_their_meanings() {
    assert!(matches!(code_to_err(0x01), HandshakeError::Unauthorized));
    assert!(matches!(code_to_err(0x02), HandshakeError::BadRequest));
    assert!(matches!(code_to_err(0x03), HandshakeError::TooManyConnections));
    assert!(matches!(code_to_err(0x04), HandshakeError::Revoked));
    assert!(matches!(code_to_err(0x77), HandshakeError::Unexpected(0x77)));
    assert!(matches!(code_to_err(0), HandshakeError::Unexpected(0)));
}

#[test]
fn close_reason_decides_a_handshake_without_ack() {
    assert!(matches!(
        map_close(ended(ConnectionErrorKind::ApplicationClosed(4))),
        HandshakeError::Revoked
    ));
    match map_close(ended(ConnectionErrorKind::Reset)) {
        HandshakeError::Io(text) => assert_eq!(text, "the end"),
        other => panic!("{other:?}"),
    }
    assert!(matches!(connection_close_error(None), HandshakeError::Unexpected(0)));
    assert!(matches!(
        connection_close_error(Some(ended(ConnectionErrorKind::ApplicationClosed(1)))),
        HandshakeError::Unauthorized
    ));
}

#[test]
fn handshake_outcomes() {
    assert!(handshake(HandshakeExchange::Reply(b"OK\n".to_vec()), None).is_ok());
    // An ack counts even where the connection has ended since.
    assert!(handshake(
        HandshakeExchange::Reply(b"OK\n".to_vec()),
        Some(ended(ConnectionErrorKind::Reset))
    )
    .is_ok());
    assert!(matches!(
        handshake(HandshakeExchange::TimedOut, Some(ended(ConnectionErrorKind::ApplicationClosed(1)))),
        Err(HandshakeError::Timeout)
    ));
    assert!(matches!(
        handshake(HandshakeExchange::ReadFailed, Some(ended(ConnectionErrorKind::ApplicationClosed(3)))),
        Err(HandshakeError::TooManyConnections)
    ));
    assert!(matches!(
        handshake(HandshakeExchange::Reply(b"NO\n".to_vec()), None),
        Err(HandshakeError::Unexpected(0))
    ));
    assert!(matches!(
        handshake(
            HandshakeExchange::OpenFailed(ended(ConnectionErrorKind::ApplicationClosed(4))),
            None
        ),
        Err(HandshakeError::Revoked)
    ));
    match handshake(HandshakeExchange::WriteFailed("broken pipe".into()), None) {
        Err(HandshakeError::Io(text)) => assert_eq!(text, "broken pipe"),
        other => panic!("{other:?}"),
    }
}

#[test]
fn backoff_doubles_and_caps() {
    let max = Duration::from_secs(5);
    assert_eq!(next_backoff(Duration::from_millis(100), max), Duration::from_millis(200));
    assert_eq!(next_backoff(Duration::from_millis(200), max), Duration::from_millis(400));
    assert_eq!(next_backoff(Duration::from_secs(4), max), max);
    assert_eq!(next_backoff(Duration::from_secs(10), max), max);
    // Twice the longest span is no span: it is capped instead.
    assert_eq!(next_backoff(Duration::longest(), max), max);
}

#[test]
fn terminal_classification() {
    assert!(is_terminal(&ConnectError::Handshake(HandshakeError::Unauthorized)));
    assert!(is_terminal(&ConnectError::Handshake(HandshakeError::Revoked)));
    assert!(is_terminal(&ConnectError::Tls("bad".into())));
    assert!(!is_terminal(&ConnectError::Resolve("dns".into())));
    assert!(!is_terminal(&ConnectError::Handshake(HandshakeError::TooManyConnections)));
}

#[test]
fn only_a_failed_tls_handshake_makes_a_connection_error_terminal() {
    assert!(is_terminal(&ConnectError::Handshake(HandshakeError::BadRequest)));
    assert!(is_terminal(&ConnectError::Connection(ended(ConnectionErrorKind::TransportError))));
    for kind in [
        ConnectionErrorKind::VersionMismatch,
        ConnectionErrorKind::ConnectionClosed,
        ConnectionErrorKind::ApplicationClosed(1),
        ConnectionErrorKind::Reset,
        ConnectionErrorKind::TimedOut,
        ConnectionErrorKind::LocallyClosed,
        ConnectionErrorKind::CidsExhausted,
    ] {
        assert!(!is_terminal(&ConnectError::Connection(ended(kind))), "{kind:?}");
    }
    assert!(!is_terminal(&ConnectError::Dial("refused".into())));
    assert!(!is_terminal(&ConnectError::Io("no socket".into())));
    assert!(!is_terminal(&ConnectError::Handshake(HandshakeError::Timeout)));
}

/// The random part of the wait: `unit` of half the backoff. A span of time cannot be negative,
/// so a negative draw is nothing.
fn extra(base: Duration, unit: f64) -> Duration {
    let half = std::time::Duration::new(base.as_secs(), base.subsec_nanos()) / 2;
    let extra = half.mul_f64(unit.max(0.0));
    Duration::new(extra.as_secs(), extra.subsec_nanos())
}

#[test]
fn jitter_stays_within_half_to_full() {
    let base = Duration::from_millis(800);
    assert_eq!(apply_jitter(base, extra(base, 0.0)), Duration::from_millis(400));
    assert_eq!(apply_jitter(base, extra(base, 1.0)), Duration::from_millis(800));
    let mid = apply_jitter(base, extra(base, 0.5));
    assert!(mid >= Duration::from_millis(400) && mid <= base);
    assert_eq!(apply_jitter(base, extra(base, 2.0)), base);
    assert_eq!(apply_jitter(base, extra(base, -1.0)), Duration::from_millis(400));
}

#[test]
fn an_overlong_share_is_cut_to_half_the_backoff() {
    let base = Duration::from_millis(800);
    assert_eq!(apply_jitter(base, base), base);
    assert_eq!(apply_jitter(base, Duration::longest()), base);
    assert_eq!(apply_jitter(base, Duration::from_millis(401)), base);
    assert_eq!(apply_jitter(base, Duration::from_millis(399)), Duration::from_millis(799));
    // An odd nanosecond is lost in halving.
    assert_eq!(apply_jitter(Duration::new(0, 3), base), Duration::new(0, 2));
    let longest = Duration::longest();
    assert!(apply_jitter(longest, longest) <= longest);
}

#[test]
fn timeout_is_reconnectable_but_stream_stop_is_not() {
    // A send timeout means the connection is likely wedged: reconnect.
    assert!(is_reconnectable_send_error(&SendError::Timeout));
    // Size errors are caller errors, never reconnectable.
    assert!(!is_reconnectable_send_error(&SendError::TooLarge(9999)));
    // A stream-level STOP (incl. the server's 0x10 reset) must NOT reconnect:
    // replaying on a stream stop amplifies overload for no reason.
    assert!(!is_reconnectable_send_error(&write_error(WriteErrorKind::Stopped(0x10))));
}

#[test]
fn lost_connections_are_reconnectable() {
    assert!(is_reconnectable_send_error(&SendError::ConnectionLost(ended(
        ConnectionErrorKind::TimedOut
    ))));
    assert!(is_reconnectable_send_error(&write_error(WriteErrorKind::ConnectionLost)));
    assert!(!is_reconnectable_send_error(&write_error(WriteErrorKind::ClosedStream)));
    assert!(!is_reconnectable_send_error(&write_error(WriteErrorKind::ZeroRttRejected)));
    assert!(!is_reconnectable_send_error(&SendError::StreamClosed("closed".into())));
}

#[test]
fn transactions_fit_one_packet() {
    assert!(check_transaction_size(&[]).is_ok());
    assert!(check_transaction_size(&vec![0u8; MAX_TX_BYTES]).is_ok());
    assert!(matches!(
        check_transaction_size(&vec![0u8; MAX_TX_BYTES + 1]),
        Err(SendError::TooLarge(1233))
    ));
}

#[test]
fn a_lost_connection_is_replaced_and_the_send_replayed_once() {
    let policy = ReconnectPolicy::default();
    assert!(matches!(after_send(&policy, false, Ok(())), SendStep::Done(Ok(()))));
    assert!(matches!(
        after_send(&policy, false, Err(SendError::Timeout)),
        SendStep::Reconnect { close_first: true }
    ));
    assert!(matches!(
        after_send(&policy, false, Err(write_error(WriteErrorKind::ConnectionLost))),
        SendStep::Reconnect { close_first: false }
    ));
    assert!(matches!(
        after_send(&policy, true, Err(SendError::Timeout)),
        SendStep::Done(Err(SendError::Timeout))
    ));
    assert!(matches!(
        after_send(&policy, false, Err(write_error(WriteErrorKind::Stopped(0x10)))),
        SendStep::Done(Err(SendError::StreamWrite(_)))
    ));
}

#[test]
fn reconnection_can_be_switched_off() {
    let mut policy = ReconnectPolicy::default();
    policy.enabled = false;
    assert!(matches!(
        after_send(&policy, false, Err(SendError::Timeout)),
        SendStep::Done(Err(SendError::Timeout))
    ));
}

#[test]
fn a_run_waits_longer_and_longer_then_gives_up() {
    let session = session(ReconnectPolicy::default());
    let mut run = Reconnect::begin(&session, false).unwrap();
    let mut waits = Vec::new();
    loop {
        match run.reconnect(DialOutcome::Elapsed) {
            ReconnectStep::Wait(wait) => waits.push(wait.as_millis()),
            ReconnectStep::GiveUp(SendError::ReconnectExhausted { attempts, last }) => {
                assert_eq!(attempts, 10);
                assert!(matches!(*last, ConnectError::Handshake(HandshakeError::Timeout)));
                break;
            }
            other => panic!("{other:?}"),
        }
    }
    assert_eq!(waits, [100, 200, 400, 800, 1600, 3200, 5000, 5000, 5000]);
}

#[test]
fn a_limit_of_zero_allows_one_attempt() {
    let mut policy = ReconnectPolicy::default();
    policy.max_attempts = Some(0);
    let session = session(policy);
    let mut run = Reconnect::begin(&session, false).unwrap();
    assert!(matches!(
        run.reconnect(DialOutcome::Failed(ConnectError::Dial("no route".into()))),
        ReconnectStep::GiveUp(SendError::ReconnectExhausted { attempts: 1, .. })
    ));
}

#[test]
fn without_a_limit_a_run_goes_on() {
    let mut policy = ReconnectPolicy::default();
    policy.max_attempts = None;
    let session = session(policy);
    let mut run = Reconnect::begin(&session, false).unwrap();
    for _ in 0..1000 {
        assert!(matches!(run.reconnect(DialOutcome::Elapsed), ReconnectStep::Wait(_)));
    }
    assert!(matches!(run.reconnect(DialOutcome::Connected), ReconnectStep::Connected));
}

#[test]
fn a_refused_token_surfaces_at_once() {
    let session = session(ReconnectPolicy::default());
    let mut run = Reconnect::begin(&session, false).unwrap();
    assert!(matches!(
        run.reconnect(DialOutcome::Failed(ConnectError::Handshake(HandshakeError::Revoked))),
        ReconnectStep::GiveUp(SendError::Reconnect(ConnectError::Handshake(
            HandshakeError::Revoked
        )))
    ));
}

#[test]
fn a_replaced_connection_is_not_dialed_again() {
    assert!(Reconnect::begin(&session(ReconnectPolicy::default()), true).is_none());
}

#[test]
fn first_dial_times_out_as_a_handshake_timeout() {
    assert!(first_dial(DialOutcome::Connected).is_ok());
    assert!(matches!(
        first_dial(DialOutcome::Elapsed),
        Err(ConnectError::Handshake(HandshakeError::Timeout))
    ));
    assert!(matches!(
        first_dial(DialOutcome::Failed(ConnectError::Dial("x".into()))),
        Err(ConnectError::Dial(_))
    ));
}

#[test]
fn preflight_checks_settings_before_token() {
    let mut config = ClientConfig::default();
    assert!(preflight(&config, "tok").is_ok());
    assert_eq!(config_message(preflight(&config, "")), "token is empty");
    config.send_timeout = Duration::from_secs(0);
    assert_eq!(config_message(preflight(&config, "")), "send_timeout must be > 0");
}

fn resolve_message<T: std::fmt::Debug>(r: Result<T, ConnectError>) -> String {
    match r {
        Err(ConnectError::Resolve(m)) => m,
        other => panic!("expected a resolve error, got {other:?}"),
    }
}

#[test]
fn connect_takes_the_host_from_the_address() {
    assert_eq!(connect_host("fra-1.publicnode.com:7000").unwrap(), "fra-1.publicnode.com");
    assert_eq!(connect_host("[2001:db8::1]:7000").unwrap(), "2001:db8::1");
    assert_eq!(connect_host("a:b:c").unwrap(), "a:b");
    assert_eq!(resolve_message(connect_host("nohost")), "missing port in nohost");
    assert_eq!(resolve_message(connect_host("[::1")), "unterminated IPv6 literal in [::1");
}

#[test]
fn connect_reports_what_the_resolver_says() {
    assert_eq!(
        resolve_message(connect_queue("h:1", Lookup::TimedOut("10s".into()))),
        "dns lookup for h:1 timed out"
    );
    assert_eq!(resolve_message(connect_queue("h:1", Lookup::Failed("nope".into()))), "nope");
    assert_eq!(
        resolve_message(connect_queue("h:1", Lookup::Found(vec![]))),
        "no addresses for h:1"
    );
}

#[test]
fn connect_dials_in_order_and_reports_the_last_error() {
    let a = SocketAddr::V4 { ipv4: 1, port: 7 };
    let b = SocketAddr::V4 { ipv4: 2, port: 7 };
    let mut queue = connect_queue("h:7", Lookup::Found(vec![a, b])).unwrap();
    assert_eq!(queue.next_addr(), Some(a));
    queue.failed(ConnectError::Dial("first".into()));
    assert_eq!(queue.next_addr(), Some(b));
    queue.failed(ConnectError::Dial("second".into()));
    assert_eq!(queue.next_addr(), None);
    match queue.into_error("h:7") {
        ConnectError::Dial(m) => assert_eq!(m, "second"),
        other => panic!("{other:?}"),
    }
}

#[test]
fn send_outcomes() {
    let lost = || ended(ConnectionErrorKind::TimedOut);
    let unwritten = |kind| WriteError { kind, description: "not written".to_string() };
    // Queued locally is sent.
    assert!(send_on_timed(SendExchange::Finished).is_ok());
    assert!(matches!(
        send_on_timed(SendExchange::OpenFailed(lost())),
        Err(SendError::ConnectionLost(_))
    ));
    assert!(matches!(
        send_on_timed(SendExchange::WriteFailed(unwritten(WriteErrorKind::Stopped(0x10)))),
        Err(SendError::StreamWrite(WriteError { kind: WriteErrorKind::Stopped(0x10), .. }))
    ));
    match send_on_timed(SendExchange::FinishFailed("closed stream".into())) {
        Err(SendError::StreamClosed(text)) => assert_eq!(text, "closed stream"),
        other => panic!("{other:?}"),
    }
    assert!(matches!(send_on_timed(SendExchange::TimedOut), Err(SendError::Timeout)));
    // Sent is done with, whichever send it was.
    let policy = ReconnectPolicy::default();
    for replay in [false, true] {
        let result = send_on_timed(SendExchange::Finished);
        assert!(matches!(after_send(&policy, replay, result), SendStep::Done(Ok(()))));
    }
}

#[test]
fn a_session_keeps_its_endpoint_and_settings() {
    let mut config = ClientConfig::default();
    config.reconnect.max_attempts = Some(3);
    config.send_timeout = Duration::from_secs(7);
    let addr = SocketAddr::V4 { ipv4: 0x7f00_0001, port: 7000 };
    let fallback = EndpointSource::Fallback {
        endpoint: "localhost:7000".into(),
        reason: FallbackReason::DiscoveryFailed("down".into()),
    };
    let session = Session::open(addr, "localhost", "tok", fallback, &config);
    assert_eq!(session.target(), (addr, "localhost"));
    assert_eq!(session.token, "tok");
    assert!(matches!(session.endpoint_source(), EndpointSource::Fallback { .. }));
    assert_eq!(session.reconnect.max_attempts, Some(3));
    assert_eq!(session.send_timeout, Duration::from_secs(7));

    let manual = Session::manual(addr, "localhost", "tok", &config);
    assert_eq!(manual.target(), (addr, "localhost"));
    assert_eq!(manual.token, "tok");
    assert!(matches!(manual.endpoint_source(), EndpointSource::Manual));
    assert_eq!(manual.reconnect.max_attempts, Some(3));
    assert_eq!(manual.send_timeout, Duration::from_secs(7));
}

#[test]
fn reconnecting_is_pinned_to_the_session() {
    let addr = SocketAddr::V4 { ipv4: 0x7f00_0001, port: 7000 };
    let source = EndpointSource::Discovered {
        endpoint: "localhost:7000".into(),
        addr,
        latency: Duration::from_millis(5),
    };
    let session = Session::open(addr, "localhost", "tok", source, &ClientConfig::default());
    let mut run = Reconnect::begin(&session, false).unwrap();
    for _ in 0..9 {
        assert_eq!(run.session.target(), (addr, "localhost"));
        assert_eq!(run.session.token, "tok");
        assert!(matches!(run.reconnect(DialOutcome::Elapsed), ReconnectStep::Wait(_)));
    }
    assert_eq!(run.session.target(), (addr, "localhost"));
    assert!(matches!(run.reconnect(DialOutcome::Connected), ReconnectStep::Connected));
    assert!(matches!(run.session.endpoint_source(), EndpointSource::Discovered { .. }));
}

#[test]
fn configuration_errors_are_terminal() {
    assert!(is_terminal(&ConnectError::Config("x".into())));
    let session = session(ReconnectPolicy::default());
    let mut run = Reconnect::begin(&session, false).unwrap();
    assert!(matches!(
        run.reconnect(DialOutcome::Failed(ConnectError::Config("x".into()))),
        ReconnectStep::GiveUp(SendError::Reconnect(ConnectError::Config(_)))
    ));
}
