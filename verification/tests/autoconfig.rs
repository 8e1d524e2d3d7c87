use solana_gun_quic_client::address::SocketAddr;
use solana_gun_quic_client::autoconfig::{
    discover, error_chain, error_summary, parse_endpoints, DiscoveryBody, DiscoveryReply,
    ErrorChain, MAX_CONCURRENT_PROBES,
};
use solana_gun_quic_client::autoconnect::{
    advance, begin_with_roots, connect_auto, AutoEvent, AutoStep,
};
use solana_gun_quic_client::probe::{ProbeOk, ProbeOutcome};
use solana_gun_quic_client::tls::NativeCerts;
use solana_gun_quic_client::{
    AutoConfig, AutoConfigError, ClientConfig, ConnectError, Duration, EndpointSource,
    FallbackReason, HandshakeError, DEFAULT_DISCOVERY_URL,
};

/// A JSON list of strings.
fn bare(body: &str) -> Result<DiscoveryBody, String> {
    serde_json::from_str::<Vec<String>>(body).map(DiscoveryBody::Bare).map_err(|e| e.to_string())
}

#[test]
fn autoconfig_validate_rejects_degenerate_config() {
    let mutate: [fn(&mut AutoConfig); 7] = [
        |a| a.discovery_url = String::new(),
        |a| a.discovery_url = "http://127.0.0.1:8080/discovery".into(),
        |a| a.discovery_url = "ftp://example.com/x".into(),
        |a| a.discovery_url = "www.allnodes.com/api".into(),
        |a| a.discovery_timeout = Duration::from_secs(0),
        |a| a.probe_timeout = Duration::from_secs(0),
        |a| a.fallback_endpoint = Some("fra1.solanagun.com".into()),
    ];
    let messages = [
        "discovery_url is empty",
        "discovery_url must start with https://",
        "discovery_url must start with https://",
        "discovery_url must start with https://",
        "discovery_timeout must be > 0",
        "probe_timeout must be > 0",
        "fallback_endpoint: missing port in fra1.solanagun.com",
    ];
    for (i, m) in mutate.iter().enumerate() {
        let mut a = AutoConfig::default();
        m(&mut a);
        assert!(
            matches!(a.validate(), Err(ConnectError::Config(_))),
            "mutation {i} should be rejected"
        );
        match a.validate() {
            Err(ConnectError::Config(message)) => assert_eq!(message, messages[i]),
            other => panic!("{other:?}"),
        }
    }
    let mut ok = AutoConfig::default();
    ok.discovery_url = "https://127.0.0.1:8443/discovery".into();
    ok.fallback_endpoint = Some("[::1]:7000".into());
    assert!(ok.validate().is_ok());
}

#[test]
fn default_autoconfig_is_bundled_and_acceptable() {
    assert_eq!(DEFAULT_DISCOVERY_URL, "https://www.allnodes.com/api/v1/solana-gun/discovery");
    let auto = AutoConfig::default();
    assert_eq!(auto.discovery_url, DEFAULT_DISCOVERY_URL);
    assert!(auto.fallback_endpoint.is_none());
    assert_eq!(auto.discovery_timeout, Duration::from_secs(5));
    assert_eq!(auto.probe_timeout, Duration::from_secs(3));
    assert!(auto.validate().is_ok());
    assert_eq!(MAX_CONCURRENT_PROBES, 16);
}

#[test]
fn parse_filters_trims_and_dedupes_without_truncating() {
    let got = parse_endpoints(bare(
        r#"[" fra1:7000 ", "fra1:7000", "", "nohost", "bad:0", "bad:99999", "bad:abc", "[2001:db8::1]:7000"]"#,
    ))
    .unwrap();
    assert_eq!(got, ["fra1:7000", "[2001:db8::1]:7000"]);

    let many: Vec<String> = (1..=100).map(|i| format!("\"h{i}:7000\"")).collect();
    let all = parse_endpoints(bare(&format!("[{}]", many.join(",")))).unwrap();
    assert_eq!(all.len(), 100);
    assert_eq!(all[99], "h100:7000");
}

#[test]
fn parse_accepts_the_wrapped_shape() {
    let body = DiscoveryBody::Wrapped { endpoints: vec!["b:2".into(), "a:1".into(), "b:2".into()] };
    assert_eq!(parse_endpoints(Ok(body)).unwrap(), ["b:2", "a:1"]);
}

fn invalid_response(r: Result<Vec<String>, FallbackReason>) -> String {
    match r {
        Err(FallbackReason::InvalidResponse(e)) => e,
        other => panic!("expected InvalidResponse, got {other:?}"),
    }
}

#[test]
fn responses_without_a_usable_endpoint_are_invalid() {
    assert_eq!(
        invalid_response(parse_endpoints(bare("not json"))),
        "not a JSON endpoint list: expected ident at line 1 column 2"
    );
    assert_eq!(invalid_response(parse_endpoints(bare("[]"))), "no usable endpoints in 0 entries");
    assert_eq!(
        invalid_response(parse_endpoints(bare(r#"["no-port", "bad:0"]"#))),
        "no usable endpoints in 2 entries"
    );
    let empty = DiscoveryBody::Wrapped { endpoints: vec![] };
    assert_eq!(invalid_response(parse_endpoints(Ok(empty))), "no usable endpoints in 0 entries");
}

fn chain(message: &str, sources: &[&str]) -> ErrorChain {
    ErrorChain {
        message: message.to_string(),
        sources: sources.iter().map(|s| s.to_string()).collect(),
    }
}

#[test]
fn error_chains_are_joined() {
    assert_eq!(error_chain(&chain("top", &[])), "top");
    assert_eq!(error_chain(&chain("top", &["middle", "bottom"])), "top: middle: bottom");
}

#[test]
fn error_summary_prefers_the_code_and_cuts_the_body() {
    assert_eq!(error_summary(Some("INVALID_NETWORK".into()), "{...}"), "INVALID_NETWORK");
    assert_eq!(error_summary(None, "short"), "short");
    let long = "\u{e9}".repeat(300);
    assert_eq!(error_summary(None, &long), "\u{e9}".repeat(200));
}

fn answered(status: u16, body: &str, error_code: Option<&str>) -> DiscoveryReply {
    DiscoveryReply::Answered {
        status,
        body: body.to_string(),
        error_code: error_code.map(str::to_string),
        list: bare(body),
    }
}

fn discovery_failed(reply: DiscoveryReply) -> String {
    match discover(reply) {
        Err(FallbackReason::DiscoveryFailed(e)) => e,
        other => panic!("expected DiscoveryFailed, got {other:?}"),
    }
}

#[test]
fn discovery_replies() {
    assert_eq!(discover(answered(200, r#"["h:1"]"#, None)).unwrap(), ["h:1"]);
    assert_eq!(discover(answered(299, r#"["h:1"]"#, None)).unwrap(), ["h:1"]);
    for (status, code) in [(503, "ENDPOINTS_NOT_FOUND"), (400, "INVALID_NETWORK")] {
        let body = format!(r#"{{"error":"{code}"}}"#);
        assert_eq!(
            discovery_failed(answered(status, &body, Some(code))),
            format!("{status} {code}")
        );
    }
    assert_eq!(discovery_failed(answered(199, r#"["h:1"]"#, None)), r#"199 ["h:1"]"#);
    assert_eq!(discovery_failed(answered(300, "moved", None)), "300 moved");
    assert_eq!(
        discovery_failed(DiscoveryReply::TlsFailed(ConnectError::Tls("no roots".into()))),
        "tls setup: tls setup failed: no roots"
    );
    assert_eq!(
        discovery_failed(DiscoveryReply::ClientFailed(chain("a", &["b"]))),
        "http client: a: b"
    );
    assert_eq!(discovery_failed(DiscoveryReply::RequestFailed(chain("a", &["b"]))), "a: b");
    assert_eq!(
        discovery_failed(DiscoveryReply::BodyFailed { status: 200, error: chain("cut", &[]) }),
        "200: reading body: cut"
    );
}

fn addr(n: u32) -> SocketAddr {
    SocketAddr::V4 { ipv4: n, port: 7000 }
}

fn probed(index: usize, endpoint: &str, result: Result<u64, &str>) -> ProbeOutcome {
    ProbeOutcome::Probed {
        index,
        endpoint: endpoint.to_string(),
        result: match result {
            Ok(millis) => Ok((addr(index as u32), Duration::from_millis(millis))),
            Err(e) => Err(e.to_string()),
        },
    }
}

fn with_fallback() -> AutoConfig {
    let mut auto = AutoConfig::default();
    auto.fallback_endpoint = Some("fb:7000".into());
    auto
}

fn probing() -> AutoStep {
    AutoStep::Probe { endpoints: vec!["a:1".into(), "b:2".into()] }
}

fn fallback_reason(step: AutoStep) -> FallbackReason {
    match step {
        AutoStep::DialFallback { endpoint, reason } => {
            assert_eq!(endpoint, "fb:7000");
            reason
        }
        other => panic!("expected DialFallback, got {other:?}"),
    }
}

fn autoconfig_error(step: AutoStep) -> AutoConfigError {
    match step {
        AutoStep::Failed { error: ConnectError::AutoConfig(e) } => e,
        other => panic!("expected an autoconfiguration error, got {other:?}"),
    }
}

#[test]
fn connect_auto_checks_config_token_and_autoconfig_in_order() {
    let config = ClientConfig::default();
    let auto = AutoConfig::default();
    assert!(connect_auto("tok", &config, &auto).is_ok());
    let mut bad_config = ClientConfig::default();
    bad_config.idle_timeout = Duration::from_secs(0);
    let mut bad_auto = AutoConfig::default();
    bad_auto.discovery_url = String::new();
    let message = |r: Result<(), ConnectError>| match r {
        Err(ConnectError::Config(m)) => m,
        other => panic!("{other:?}"),
    };
    assert_eq!(message(connect_auto("", &bad_config, &bad_auto)), "idle_timeout must be > 0");
    assert_eq!(message(connect_auto("", &config, &bad_auto)), "token is empty");
    assert_eq!(message(connect_auto("tok", &config, &bad_auto)), "discovery_url is empty");
}

#[test]
fn automatic_connect_to_the_fastest_endpoint() {
    let auto = with_fallback();
    let reply = answered(200, r#"["a:1", "b:2"]"#, None);
    let step = advance(&auto, AutoStep::Discover, AutoEvent::Discovery(reply));
    match &step {
        AutoStep::Probe { endpoints } => assert_eq!(*endpoints, ["a:1", "b:2"]),
        other => panic!("{other:?}"),
    }
    let outcomes = vec![probed(1, "b:2", Ok(5)), probed(0, "a:1", Ok(300))];
    let step = advance(&auto, step, AutoEvent::Probes(outcomes));
    match &step {
        AutoStep::DialDiscovered { best, host } => {
            assert_eq!(best.endpoint, "b:2");
            assert_eq!(host, "b");
        }
        other => panic!("{other:?}"),
    }
    match advance(&auto, step, AutoEvent::Dialed(Ok(()))) {
        AutoStep::Connected {
            source: EndpointSource::Discovered { endpoint, addr: at, latency },
        } => {
            assert_eq!(endpoint, "b:2");
            assert_eq!(at, addr(1));
            assert_eq!(latency, Duration::from_millis(5));
        }
        other => panic!("{other:?}"),
    }
}

#[test]
fn one_reachable_endpoint_is_enough() {
    let outcomes = vec![probed(0, "a:1", Err("probe timed out")), probed(1, "b:2", Ok(9))];
    assert!(matches!(
        advance(&with_fallback(), probing(), AutoEvent::Probes(outcomes)),
        AutoStep::DialDiscovered { best: ProbeOk { .. }, .. }
    ));
}

#[test]
fn every_way_to_fail_leads_to_the_fallback() {
    let auto = with_fallback();
    let reason = fallback_reason(advance(
        &auto,
        AutoStep::Discover,
        AutoEvent::Discovery(answered(200, "not json", None)),
    ));
    assert!(matches!(reason, FallbackReason::InvalidResponse(_)));
    let reason = fallback_reason(advance(
        &auto,
        AutoStep::Discover,
        AutoEvent::Discovery(answered(503, "busy", None)),
    ));
    assert!(matches!(reason, FallbackReason::DiscoveryFailed(_)));
    let outcomes = vec![probed(1, "b:2", Err("late")), probed(0, "a:1", Err("early"))];
    match fallback_reason(advance(&auto, probing(), AutoEvent::Probes(outcomes))) {
        FallbackReason::AllProbesFailed(list) => {
            assert_eq!(
                list,
                [("a:1".to_string(), "early".to_string()), ("b:2".to_string(), "late".to_string())]
            );
        }
        other => panic!("{other:?}"),
    }
    let best = ProbeOk {
        endpoint: "b:2".into(),
        addr: addr(2),
        latency: Duration::from_millis(1),
    };
    let dial = AutoStep::DialDiscovered { best, host: "b".into() };
    let refused = ConnectError::Handshake(HandshakeError::Unauthorized);
    match fallback_reason(advance(&auto, dial, AutoEvent::Dialed(Err(refused)))) {
        FallbackReason::InitialConnectFailed { endpoint, error } => {
            assert_eq!(endpoint, "b:2");
            assert_eq!(error, "handshake failed: unauthorized (unknown or invalid token)");
        }
        other => panic!("{other:?}"),
    }
}

#[test]
fn without_a_fallback_failure_is_an_actionable_error() {
    let auto = AutoConfig::default();
    let outcomes = vec![probed(0, "a:1", Err("dead"))];
    let err = autoconfig_error(advance(&auto, probing(), AutoEvent::Probes(outcomes)));
    assert!(matches!(err.reason, FallbackReason::AllProbesFailed(_)));
    assert!(err.fallback_endpoint.is_none());
    assert!(err.fallback_error.is_none());
    assert_eq!(
        err.message(),
        "all 1 discovered endpoints failed their probes: [a:1: dead]; set \
         AutoConfig::fallback_endpoint to connect without discovery"
    );
}

#[test]
fn a_failed_fallback_reports_both_errors() {
    let auto = with_fallback();
    let step = advance(
        &auto,
        AutoStep::Discover,
        AutoEvent::Discovery(answered(200, "not json", None)),
    );
    let err = autoconfig_error(advance(
        &auto,
        step,
        AutoEvent::Dialed(Err(ConnectError::Handshake(HandshakeError::Timeout))),
    ));
    assert!(matches!(err.reason, FallbackReason::InvalidResponse(_)));
    assert_eq!(err.fallback_endpoint.as_deref(), Some("fb:7000"));
    assert!(err.fallback_error.is_some());
    let msg = err.message();
    assert!(msg.contains("discovery response invalid"), "{msg}");
    assert!(msg.contains("fallback endpoint fb:7000 also failed"), "{msg}");
    assert!(msg.ends_with("handshake failed: handshake timed out"), "{msg}");
}

#[test]
fn a_connected_fallback_keeps_its_reason() {
    let step = AutoStep::DialFallback {
        endpoint: "fb:7000".into(),
        reason: FallbackReason::DiscoveryFailed("down".into()),
    };
    match advance(&with_fallback(), step, AutoEvent::Dialed(Ok(()))) {
        AutoStep::Connected { source: EndpointSource::Fallback { endpoint, reason } } => {
            assert_eq!(endpoint, "fb:7000");
            assert_eq!(reason.message(), "discovery request failed: down");
        }
        other => panic!("{other:?}"),
    }
}

#[test]
fn an_event_out_of_turn_changes_nothing() {
    let auto = with_fallback();
    let step = advance(&auto, AutoStep::Discover, AutoEvent::Dialed(Ok(())));
    assert!(matches!(step, AutoStep::Discover));
    let step = advance(&auto, probing(), AutoEvent::Dialed(Ok(())));
    assert!(matches!(step, AutoStep::Probe { .. }));
    let step = advance(
        &auto,
        AutoStep::Connected { source: EndpointSource::Manual },
        AutoEvent::Dialed(Err(ConnectError::Dial("late".into()))),
    );
    assert!(matches!(step, AutoStep::Connected { source: EndpointSource::Manual }));
}

#[test]
fn a_selected_endpoint_that_is_none_is_an_invalid_response() {
    let outcomes = vec![probed(0, "nohost", Ok(1))];
    match fallback_reason(advance(&with_fallback(), probing(), AutoEvent::Probes(outcomes))) {
        FallbackReason::InvalidResponse(e) => assert_eq!(e, "missing port in nohost"),
        other => panic!("{other:?}"),
    }
}

#[test]
fn total_failure_lists_the_endpoints_in_order() {
    let outcomes = vec![
        probed(2, "c:3", Err("3")),
        probed(0, "a:1", Err("1")),
        probed(1, "b:2", Err("2")),
    ];
    let step = AutoStep::Probe { endpoints: vec!["a:1".into(), "b:2".into(), "c:3".into()] };
    match fallback_reason(advance(&with_fallback(), step, AutoEvent::Probes(outcomes))) {
        FallbackReason::AllProbesFailed(list) => {
            let list: Vec<(&str, &str)> =
                list.iter().map(|(endpoint, error)| (endpoint.as_str(), error.as_str())).collect();
            assert_eq!(list, [("a:1", "1"), ("b:2", "2"), ("c:3", "3")]);
        }
        other => panic!("{other:?}"),
    }
}

#[test]
fn roots_come_before_discovery_and_their_failure_is_final() {
    let certificate = rcgen::generate_simple_self_signed(vec!["localhost".to_string()]).unwrap();
    let loaded = NativeCerts { certs: vec![certificate.cert.der().to_vec()], first_error: None };
    let (config, step) = begin_with_roots(ClientConfig::default(), Ok(loaded)).unwrap();
    assert!(config.root_store.is_some_and(|roots| roots.len() == 1));
    assert!(matches!(step, AutoStep::Discover));

    let none = NativeCerts { certs: vec![], first_error: Some("denied".into()) };
    let failures = [
        (Ok(none), "no usable system root certificates (denied)"),
        (Err("cancelled".to_string()), "loading system roots: cancelled"),
    ];
    for (loaded, text) in failures {
        match begin_with_roots(ClientConfig::default(), loaded) {
            Err(ConnectError::Tls(m)) => assert_eq!(m, text),
            other => panic!("{other:?}"),
        }
    }
}
