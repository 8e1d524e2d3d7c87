use solana_gun_quic_client::tls::{
    https_client_config, rustls_client_config, system_roots, with_resolved_roots, NativeCerts,
};
use solana_gun_quic_client::{ClientConfig, ConnectError, Duration, RootCertStore};
use std::sync::Arc;

fn certificate() -> Vec<u8> {
    rcgen::generate_simple_self_signed(vec!["localhost".to_string()]).unwrap().cert.der().to_vec()
}

fn native(certs: Vec<Vec<u8>>, first_error: Option<&str>) -> NativeCerts {
    NativeCerts { certs, first_error: first_error.map(str::to_string) }
}

fn tls_message<T>(r: Result<T, ConnectError>) -> String {
    match r {
        Err(ConnectError::Tls(m)) => m,
        Err(other) => panic!("{other:?}"),
        Ok(_) => panic!("expected an error"),
    }
}

#[test]
fn system_roots_keep_what_can_be_read() {
    let (a, b) = (certificate(), certificate());
    let store = system_roots(native(
        vec![a.clone(), b"garbage".to_vec(), vec![], b.clone()],
        Some("one file was unreadable"),
    ))
    .unwrap();
    let mut expected = RootCertStore::empty();
    expected.add(a.into()).unwrap();
    expected.add(b.into()).unwrap();
    assert_eq!(store.roots, expected.roots);
}

#[test]
fn system_roots_without_a_usable_certificate_are_an_error() {
    assert_eq!(
        tls_message(system_roots(native(vec![], None))),
        "no usable system root certificates"
    );
    assert_eq!(
        tls_message(system_roots(native(vec![b"garbage".to_vec()], Some("denied")))),
        "no usable system root certificates (denied)"
    );
}

#[test]
fn ingress_config_is_tls13_with_the_ingress_protocol() {
    let config = rustls_client_config(None, native(vec![certificate()], None)).unwrap();
    assert_eq!(config.alpn_protocols, vec![b"solana-gun-ingress/1".to_vec()]);
    let text = format!("{config:?}");
    assert!(text.contains("versions: [TLSv1_3]"), "{text}");
}

#[test]
fn https_config_offers_no_protocol_and_both_versions() {
    let config = https_client_config(None, native(vec![certificate()], None)).unwrap();
    assert!(config.alpn_protocols.is_empty());
    let text = format!("{config:?}");
    assert!(text.contains("versions: [TLSv1_2, TLSv1_3]"), "{text}");
}

#[test]
fn an_override_needs_no_system_roots() {
    let mut roots = RootCertStore::empty();
    roots.add(certificate().into()).unwrap();
    let roots = Arc::new(roots);
    assert!(rustls_client_config(Some(&roots), native(vec![], Some("denied"))).is_ok());
    assert!(https_client_config(Some(&roots), native(vec![], None)).is_ok());
    assert_eq!(
        tls_message(rustls_client_config(None, native(vec![], Some("denied")))),
        "no usable system root certificates (denied)"
    );
    assert_eq!(
        tls_message(https_client_config(None, native(vec![], None))),
        "no usable system root certificates"
    );
}

#[test]
fn roots_are_resolved_once_for_the_whole_run() {
    let mut config = ClientConfig::default();
    config.send_timeout = Duration::from_secs(7);
    let resolved = with_resolved_roots(config, Ok(native(vec![certificate()], None))).unwrap();
    assert!(resolved.root_store.as_ref().is_some_and(|r| r.len() == 1));
    assert_eq!(resolved.send_timeout, Duration::from_secs(7));

    let roots = resolved.root_store.clone().unwrap();
    let kept = with_resolved_roots(resolved, Err("cancelled".into())).unwrap();
    assert!(Arc::ptr_eq(kept.root_store.as_ref().unwrap(), &roots));

    assert_eq!(
        tls_message(with_resolved_roots(ClientConfig::default(), Ok(native(vec![], None)))),
        "no usable system root certificates"
    );
    assert_eq!(
        tls_message(with_resolved_roots(ClientConfig::default(), Err("cancelled".into()))),
        "loading system roots: cancelled"
    );
}
