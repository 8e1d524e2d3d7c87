//! The local QUIC endpoint from which a peer is dialed.
use crate::address::SocketAddr;
use crate::config::ClientConfig;
use crate::error::ConnectError;
use crate::tls::{Anchor, NativeCerts, TlsVersion};
use quinn::crypto::rustls::QuicClientConfig;
use quinn::ClientConfig as QuinnConfig;
use rustls::ClientConfig as RustlsConfig;
use rustls::RootCertStore;
use std::sync::Arc;
use vstd::prelude::*;

verus! {

broadcast use vstd::string::group_string_axioms;

/// `quinn::crypto::rustls::QuicClientConfig`, the TLS side of a QUIC client.
#[verifier::external_type_specification]
#[verifier::external_body]
pub struct ExQuicClientConfig(QuicClientConfig);

/// `quinn::ClientConfig`, what a QUIC client is configured with.
#[verifier::external_type_specification]
#[verifier::external_body]
pub struct ExQuinnConfig(QuinnConfig);

/// What the TLS side of a QUIC client was configured with: trust anchors, protocol versions
/// and application protocols.
pub uninterp spec fn quic_tls_terms(crypto: QuicClientConfig) -> (
    Seq<Anchor>,
    Set<TlsVersion>,
    Seq<Seq<u8>>,
);

/// What the transport of a QUIC client was configured with: the idle deadline in milliseconds
/// and the time between keepalives in nanoseconds.
pub uninterp spec fn transport_terms(config: QuinnConfig) -> (u64, nat);

/// What a QUIC client was configured with on its TLS side.
pub uninterp spec fn session_terms(config: QuinnConfig) -> (
    Seq<Anchor>,
    Set<TlsVersion>,
    Seq<Seq<u8>>,
);

/// `quinn::crypto::rustls::QuicClientConfig::try_from` wraps a TLS configuration as it is. It
/// fails, in these words, where the configuration's provider lacks the cipher suite that QUIC
/// asks for.
#[verifier::external_body]
fn quic_crypto(config: Arc<RustlsConfig>) -> (r: Result<QuicClientConfig, String>)
    ensures
        match r {
            Ok(crypto) => crate::tls::quic_ready(*config) && quic_tls_terms(crypto)
                == crate::tls::tls_terms(*config),
            Err(e) => !crate::tls::quic_ready(*config) && e@ == "no initial cipher suite found"@,
        },
{
    QuicClientConfig::try_from(config).map_err(|e| e.to_string())
}

/// `x` as an integer that QUIC can write: those below 2^62.
fn quic_varint(x: u128) -> (r: Option<u64>)
    ensures
        r == if x < 0x4000_0000_0000_0000 {
            Some(x as u64)
        } else {
            None
        },
{
    if x < 0x4000_0000_0000_0000 {
        Some(x as u64)
    } else {
        None
    }
}

/// `quinn::ClientConfig::new` with a `quinn::TransportConfig` of its own, in which
/// `max_idle_timeout` and `keep_alive_interval` set what their names say. An idle deadline of
/// 2^62 milliseconds or more is none. The time between keepalives is whole seconds and the
/// nanoseconds that are left.
#[verifier::external_body]
fn quic_client_config(
    crypto: QuicClientConfig,
    idle_timeout_millis: u64,
    keep_alive_secs: u64,
    keep_alive_nanos: u32,
) -> (config: QuinnConfig)
    requires
        idle_timeout_millis < 0x4000_0000_0000_0000,
        keep_alive_nanos < 1_000_000_000,
    ensures
        session_terms(config) == quic_tls_terms(crypto),
        transport_terms(config) == (
            idle_timeout_millis,
            (keep_alive_secs * 1_000_000_000 + keep_alive_nanos) as nat,
        ),
{
    let keep_alive = std::time::Duration::new(keep_alive_secs, keep_alive_nanos);
    let idle_timeout = quinn::VarInt::from_u64(idle_timeout_millis).expect("below 2^62");
    let mut transport = quinn::TransportConfig::default();
    transport.max_idle_timeout(Some(quinn::IdleTimeout::from(idle_timeout)));
    transport.keep_alive_interval(Some(keep_alive));
    let mut config = QuinnConfig::new(Arc::new(crypto));
    config.transport_config(Arc::new(transport));
    config
}

/// How a local endpoint is set up.
#[derive(Debug)]
pub struct EndpointPlan {
    /// The local address to bind.
    pub bind: SocketAddr,
    /// What its connections are configured with.
    pub quic: QuinnConfig,
}

/// The roots that the settings name, if they name any.
pub open spec fn named_roots(config: &ClientConfig) -> Option<&Arc<RootCertStore>> {
    match &config.root_store {
        Some(roots) => Some(roots),
        None => None,
    }
}

/// Whether `plan` is the local endpoint for a dial to `addr`: bound to any address of the same
/// family, speaking TLS 1.3 and the protocol of the ingress, judging servers by the trust
/// anchors in force, and with the deadlines of the settings.
pub open spec fn planned(
    addr: SocketAddr,
    config: &ClientConfig,
    loaded: NativeCerts,
    plan: EndpointPlan,
) -> bool {
    &&& plan.bind == match addr {
        SocketAddr::V4 { .. } => SocketAddr::V4 { ipv4: 0, port: 0 },
        SocketAddr::V6 { .. } => SocketAddr::V6 { ipv6: 0, port: 0, flowinfo: 0, scope_id: 0 },
    }
    &&& session_terms(plan.quic) == (
        crate::tls::anchors_in_force(named_roots(config), loaded),
        set![TlsVersion::Tls13],
        seq![vstd::utf8::encode_utf8(crate::tls::ALPN@)],
    )
    &&& transport_terms(plan.quic) == (
        (config.idle_timeout@ / 1_000_000) as u64,
        config.keep_alive_interval@,
    )
}

/// Whether `r` is what setting up a local endpoint for a dial to `addr` comes to.
pub open spec fn endpoint_built(
    addr: SocketAddr,
    config: &ClientConfig,
    loaded: NativeCerts,
    r: Result<EndpointPlan, ConnectError>,
) -> bool {
    if config.root_store is None && crate::tls::readable_anchors(loaded.certs.deep_view()).len()
        == 0 {
        r matches Err(ConnectError::Tls(m)) && m@ == crate::tls::no_system_roots(
            loaded.first_error,
        )
    } else if config.idle_timeout@ / 1_000_000 >= 0x4000_0000_0000_0000 {
        r matches Err(ConnectError::Tls(m)) && m@ == "idle_timeout out of range"@
    } else {
        r matches Ok(plan) && planned(addr, config, loaded, plan)
    }
}

/// An endpoint can be set up if and only if there is a trust anchor in force, or the settings name
/// the roots, and the idle deadline is below 2^62 milliseconds. Where neither holds, the missing
/// anchor is what is reported; either way it is a failure of TLS.
pub proof fn law_endpoint_built(
    addr: SocketAddr,
    config: &ClientConfig,
    loaded: NativeCerts,
    r: Result<EndpointPlan, ConnectError>,
)
    requires
        endpoint_built(addr, config, loaded, r),
    ensures
        r is Ok <==> (config.root_store is Some || crate::tls::readable_anchors(
            loaded.certs.deep_view(),
        ).len() > 0) && config.idle_timeout@ / 1_000_000 < 0x4000_0000_0000_0000,
        r matches Ok(plan) ==> planned(addr, config, loaded, plan),
        r matches Err(e) ==> (e matches ConnectError::Tls(m) && m@ == if config.root_store is Some
            || crate::tls::readable_anchors(loaded.certs.deep_view()).len() > 0 {
            "idle_timeout out of range"@
        } else {
            match loaded.first_error {
                None => "no usable system root certificates"@,
                Some(first) => "no usable system root certificates ("@ + first@ + ")"@,
            }
        }),
{
}

/// The local endpoint for a dial to `addr`. There has to be a trust anchor, unless the settings
/// name the roots; and the idle deadline has to fit the integers that QUIC writes, which end
/// at 2^62.
pub fn build_endpoint(addr: &SocketAddr, config: &ClientConfig, loaded: NativeCerts) -> (r: Result<
    EndpointPlan,
    ConnectError,
>)
    ensures
        endpoint_built(*addr, config, loaded, r),
{
    let tls = match crate::tls::rustls_client_config(config.root_store.as_ref(), loaded) {
        Ok(tls) => tls,
        Err(e) => {
            return Err(e);
        },
    };
    let crypto = match quic_crypto(tls) {
        Ok(crypto) => crypto,
        Err(e) => {
            return Err(ConnectError::Tls(e));
        },
    };
    match quic_varint(config.idle_timeout.as_millis()) {
        None => Err(ConnectError::Tls("idle_timeout out of range".to_owned())),
        Some(idle_timeout_millis) => Ok(
            EndpointPlan {
                bind: crate::address::bind_addr(addr),
                quic: quic_client_config(
                    crypto,
                    idle_timeout_millis,
                    config.keep_alive_interval.as_secs(),
                    config.keep_alive_interval.subsec_nanos(),
                ),
            },
        ),
    }
}

/// A local endpoint is bound to any port of any address of the peer's family. Its connections
/// speak TLS 1.3 and nothing older, offer the protocol of the ingress and no other, and trust the
/// roots that the settings name, or else the platform's. They idle out after the deadline of the
/// settings, in whole milliseconds, and send keepalives as often as the settings say.
pub proof fn law_planned_endpoint(
    addr: SocketAddr,
    config: &ClientConfig,
    loaded: NativeCerts,
    plan: EndpointPlan,
)
    requires
        planned(addr, config, loaded, plan),
    ensures
        addr is V4 ==> plan.bind == (SocketAddr::V4 { ipv4: 0, port: 0 }),
        addr is V6 ==> plan.bind == (SocketAddr::V6 {
            ipv6: 0,
            port: 0,
            flowinfo: 0,
            scope_id: 0,
        }),
        config.root_store matches Some(roots) ==> session_terms(plan.quic).0
            == crate::tls::trust_anchors(*roots),
        config.root_store is None ==> session_terms(plan.quic).0 == crate::tls::readable_anchors(
            loaded.certs.deep_view(),
        ),
        session_terms(plan.quic).1.contains(TlsVersion::Tls13),
        !session_terms(plan.quic).1.contains(TlsVersion::Tls12),
        session_terms(plan.quic).2 == seq![vstd::utf8::encode_utf8("solana-gun-ingress/1"@)],
        config.idle_timeout@ / 1_000_000 < 0x4000_0000_0000_0000 ==> transport_terms(plan.quic).0
            == config.idle_timeout@ / 1_000_000,
        transport_terms(plan.quic).1 == config.keep_alive_interval@,
{
}

} // verus!
