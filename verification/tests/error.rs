use solana_gun_quic_client::error::{
    ConnectionError, ConnectionErrorKind, WriteError, WriteErrorKind,
};
use solana_gun_quic_client::{
    AutoConfigError, ConnectError, FallbackReason, HandshakeError, SendError,
};

fn lost() -> ConnectionError {
    ConnectionError { kind: ConnectionErrorKind::TimedOut, description: "timed out".into() }
}

#[test]
fn handshake_errors_in_words() {
    let cases = [
        (HandshakeError::Unauthorized, "unauthorized (unknown or invalid token)"),
        (HandshakeError::TooManyConnections, "too many connections for this token"),
        (HandshakeError::BadRequest, "bad request"),
        (HandshakeError::Revoked, "revoked"),
        (HandshakeError::Io("broken".into()), "handshake i/o error: broken"),
        (HandshakeError::Timeout, "handshake timed out"),
        (HandshakeError::Unexpected(0x77), "server closed with unexpected code 0x77"),
        (HandshakeError::Unexpected(0), "server closed with unexpected code 0x0"),
    ];
    for (e, text) in cases {
        assert_eq!(e.message(), text);
    }
}

#[test]
fn connect_errors_in_words() {
    let auto = AutoConfigError {
        reason: FallbackReason::DiscoveryFailed("503".into()),
        fallback_endpoint: Some("f:1".into()),
        fallback_error: Some(Box::new(ConnectError::Dial("no".into()))),
    };
    let cases = [
        (ConnectError::Resolve("x".into()), "address resolution failed: x"),
        (ConnectError::Dial("x".into()), "quic dial failed: x"),
        (ConnectError::Connection(lost()), "quic connection failed: timed out"),
        (ConnectError::Handshake(HandshakeError::Revoked), "handshake failed: revoked"),
        (ConnectError::Tls("x".into()), "tls setup failed: x"),
        (ConnectError::Config("x".into()), "invalid client configuration: x"),
        (ConnectError::Io("x".into()), "endpoint setup failed: x"),
        (
            ConnectError::AutoConfig(auto),
            "autoconfiguration failed: discovery request failed: 503; fallback endpoint f:1 also \
             failed: quic dial failed: no",
        ),
    ];
    for (e, text) in cases {
        assert_eq!(e.message(), text);
    }
}

#[test]
fn send_errors_in_words() {
    let write = WriteError { kind: WriteErrorKind::Stopped(16), description: "stopped".into() };
    let exhausted = SendError::ReconnectExhausted {
        attempts: 10,
        last: Box::new(ConnectError::Handshake(HandshakeError::Timeout)),
    };
    let cases = [
        (SendError::TooLarge(9999), "transaction is 9999 bytes, exceeds maximum 1232"),
        (SendError::Timeout, "transaction send timed out"),
        (SendError::ConnectionLost(lost()), "connection lost: timed out"),
        (SendError::StreamWrite(write), "stream write failed: stopped"),
        (SendError::StreamClosed("x".into()), "stream closed before finish: x"),
        (SendError::Reconnect(ConnectError::Tls("x".into())), "reconnect failed: tls setup failed: x"),
        (
            exhausted,
            "reconnect gave up after 10 attempts; last error: handshake failed: handshake timed out",
        ),
    ];
    for (e, text) in cases {
        assert_eq!(e.message(), text);
    }
}

#[test]
fn fallback_reasons_in_words() {
    let cases = [
        (FallbackReason::DiscoveryFailed("x".into()), "discovery request failed: x"),
        (FallbackReason::InvalidResponse("x".into()), "discovery response invalid: x"),
        (
            FallbackReason::AllProbesFailed(vec![
                ("a:1".into(), "dead".into()),
                ("b:2".into(), "late".into()),
            ]),
            "all 2 discovered endpoints failed their probes: [a:1: dead] [b:2: late]",
        ),
        (
            FallbackReason::InitialConnectFailed { endpoint: "a:1".into(), error: "no".into() },
            "selected endpoint a:1 failed the initial connection: no",
        ),
    ];
    for (reason, text) in cases {
        assert_eq!(reason.message(), text);
    }
}
