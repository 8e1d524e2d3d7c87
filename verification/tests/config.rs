use solana_gun_quic_client::{ClientConfig, ConnectError, Duration, ReconnectPolicy, RootCertStore};
use std::sync::Arc;

#[test]
fn config_validate_rejects_degenerate_config() {
    // A known-good baseline validates.
    assert!(ClientConfig::default().validate().is_ok());

    // Each mutation makes exactly one field degenerate; all must be rejected.
    let good = ClientConfig::default;
    let mutate: [fn(&mut ClientConfig); 8] = [
        |c| c.root_store = Some(Arc::new(RootCertStore::empty())),
        |c| c.send_timeout = Duration::from_secs(0),
        |c| c.idle_timeout = Duration::from_secs(0),
        |c| c.keep_alive_interval = Duration::from_secs(0),
        |c| c.keep_alive_interval = c.idle_timeout, // == idle_timeout: keepalive too slow
        |c| c.reconnect.connect_timeout = Duration::from_secs(0),
        |c| c.reconnect.initial_backoff = Duration::from_secs(0),
        |c| {
            c.reconnect.initial_backoff = Duration::from_secs(2);
            c.reconnect.max_backoff = Duration::from_millis(1);
        },
    ];
    let messages = [
        "root_store override is empty; every handshake would fail",
        "send_timeout must be > 0",
        "idle_timeout must be > 0",
        "keep_alive_interval must be > 0",
        "keep_alive_interval must be < idle_timeout (else keepalives never fire before idle)",
        "reconnect.connect_timeout must be > 0",
        "reconnect.initial_backoff must be > 0",
        "reconnect.max_backoff must be >= reconnect.initial_backoff",
    ];
    for (i, m) in mutate.iter().enumerate() {
        let mut c = good();
        m(&mut c);
        assert!(c.validate().is_err(), "mutation {i} should be rejected");
        match c.validate() {
            Err(ConnectError::Config(message)) => assert_eq!(message, messages[i]),
            other => panic!("mutation {i}: {other:?}"),
        }
    }
}

#[test]
fn a_root_store_with_roots_is_accepted() {
    let cert = rcgen::generate_simple_self_signed(vec!["localhost".to_string()]).unwrap();
    let mut roots = RootCertStore::empty();
    roots.add(cert.cert.der().clone()).unwrap();
    let mut c = ClientConfig::default();
    c.root_store = Some(Arc::new(roots));
    assert!(c.validate().is_ok());
}

#[test]
fn defaults_are_as_documented() {
    let c = ClientConfig::default();
    assert!(c.root_store.is_none());
    assert_eq!(c.idle_timeout, Duration::from_secs(30));
    assert_eq!(c.keep_alive_interval, Duration::from_secs(10));
    assert_eq!(c.send_timeout, Duration::from_secs(10));
    let p = ReconnectPolicy::default();
    assert!(p.enabled);
    assert_eq!(p.connect_timeout, Duration::from_secs(10));
    assert_eq!(p.initial_backoff, Duration::from_millis(100));
    assert_eq!(p.max_backoff, Duration::from_secs(5));
    assert_eq!(p.max_attempts, Some(10));
}

#[test]
fn the_shortest_gap_between_keepalive_and_idle_is_enough() {
    let mut c = ClientConfig::default();
    c.idle_timeout = Duration::new(1, 1);
    c.keep_alive_interval = Duration::from_secs(1);
    assert!(c.validate().is_ok());
    c.reconnect.max_backoff = c.reconnect.initial_backoff;
    assert!(c.validate().is_ok());
}

#[test]
fn durations_measure_as_std_does() {
    for (secs, nanos) in [(0, 0), (0, 999_999_999), (7, 1), (u64::MAX, 999_999_999)] {
        let d = Duration::new(secs, nanos);
        let std = std::time::Duration::new(secs, nanos);
        assert_eq!(d.as_secs(), std.as_secs());
        assert_eq!(d.subsec_nanos(), std.subsec_nanos());
        assert_eq!(d.as_millis(), std.as_millis());
        assert_eq!(d.is_zero(), std.is_zero());
        let double = std.saturating_mul(2);
        assert_eq!(d.saturating_double(), Duration::new(double.as_secs(), double.subsec_nanos()));
        let half = std / 2;
        assert_eq!(d.halved(), Duration::new(half.as_secs(), half.subsec_nanos()));
    }
    assert_eq!(Duration::from_millis(u64::MAX).as_millis(), u64::MAX as u128);
    assert_eq!(Duration::longest(), Duration::new(u64::MAX, 999_999_999));
    assert_eq!(Duration::from_secs(1).plus(Duration::from_millis(5)), Duration::from_millis(1005));
    assert!(Duration::from_millis(999).shorter_than(Duration::from_secs(1)));
    assert_eq!(Duration::from_secs(2).min(Duration::from_secs(1)), Duration::from_secs(1));
}

#[test]
fn nanoseconds_carry_into_seconds() {
    let d = Duration::new(1, 2_500_000_000);
    assert_eq!(d, Duration::new(3, 500_000_000));
    let std = std::time::Duration::new(1, 2_500_000_000);
    assert_eq!((d.as_secs(), d.subsec_nanos()), (std.as_secs(), std.subsec_nanos()));
}
