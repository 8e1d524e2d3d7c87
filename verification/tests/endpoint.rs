use solana_gun_quic_client::endpoint::build_endpoint;
use solana_gun_quic_client::tls::NativeCerts;
use solana_gun_quic_client::{ClientConfig, ConnectError, Duration, RootCertStore, SocketAddr};
use std::sync::Arc;

const PEER: SocketAddr = SocketAddr::V4 { ipv4: 0x7f00_0001, port: 7000 };

fn certificate() -> Vec<u8> {
    rcgen::generate_simple_self_signed(vec!["localhost".to_string()]).unwrap().cert.der().to_vec()
}

fn no_certs() -> NativeCerts {
    NativeCerts { certs: vec![], first_error: None }
}

/// Default settings with a root of their own.
fn rooted() -> ClientConfig {
    let mut roots = RootCertStore::empty();
    roots.add(certificate().into()).unwrap();
    let mut config = ClientConfig::default();
    config.root_store = Some(Arc::new(roots));
    config
}

fn tls_message(config: &ClientConfig, loaded: NativeCerts) -> String {
    match build_endpoint(&PEER, config, loaded) {
        Err(ConnectError::Tls(m)) => m,
        other => panic!("expected a TLS error, got {other:?}"),
    }
}

#[test]
fn endpoint_binds_the_family_of_the_peer() {
    let config = rooted();
    let plan = build_endpoint(&PEER, &config, no_certs()).unwrap();
    assert_eq!(plan.bind, SocketAddr::V4 { ipv4: 0, port: 0 });
    let peer = SocketAddr::V6 { ipv6: 1, port: 7000, flowinfo: 2, scope_id: 3 };
    let plan = build_endpoint(&peer, &config, no_certs()).unwrap();
    assert_eq!(plan.bind, SocketAddr::V6 { ipv6: 0, port: 0, flowinfo: 0, scope_id: 0 });
}

#[test]
fn endpoint_has_the_deadlines_of_the_settings() {
    let mut config = rooted();
    config.idle_timeout = Duration::from_millis(12_345);
    config.keep_alive_interval = Duration::new(1, 250_000_000);
    let text = format!("{:?}", build_endpoint(&PEER, &config, no_certs()).unwrap().quic);
    assert!(text.contains("max_idle_timeout: Some(12345)"), "{text}");
    assert!(text.contains("keep_alive_interval: Some(1.25s)"), "{text}");
}

#[test]
fn idle_timeout_has_to_fit_a_quic_integer() {
    let mut config = rooted();
    config.idle_timeout = Duration::from_millis((1 << 62) - 1);
    let text = format!("{:?}", build_endpoint(&PEER, &config, no_certs()).unwrap().quic);
    assert!(text.contains(&format!("max_idle_timeout: Some({})", (1u64 << 62) - 1)), "{text}");
    for too_long in [Duration::from_millis(1 << 62), Duration::longest()] {
        config.idle_timeout = too_long;
        assert_eq!(tls_message(&config, no_certs()), "idle_timeout out of range");
    }
}

#[test]
fn endpoint_needs_a_trust_anchor() {
    let mut config = ClientConfig::default();
    assert!(build_endpoint(
        &PEER,
        &config,
        NativeCerts { certs: vec![certificate()], first_error: None }
    )
    .is_ok());
    // Roots come before deadlines.
    config.idle_timeout = Duration::longest();
    assert_eq!(tls_message(&config, no_certs()), "no usable system root certificates");
}
