//! Trust anchors and TLS client configuration.
use crate::config::ClientConfig;
use crate::error::ConnectError;
use rustls::ClientConfig as RustlsConfig;
use rustls::RootCertStore;
use std::sync::Arc;
use vstd::prelude::*;

verus! {

broadcast use vstd::string::group_string_axioms;

/// The application protocol that the ingress speaks.
pub const ALPN: &'static str = "solana-gun-ingress/1";

/// A TLS protocol version.
#[derive(Clone, Copy, Debug, PartialEq, Eq, Structural)]
pub enum TlsVersion {
    Tls12,
    Tls13,
}

/// What the platform's certificate store gave: certificates in DER, and the first of the
/// errors met while reading it, in words.
#[derive(Debug)]
pub struct NativeCerts {
    pub certs: Vec<Vec<u8>>,
    pub first_error: Option<String>,
}

/// A trust anchor: its subject, its public key and its name constraints, in DER.
pub type Anchor = (Seq<u8>, Seq<u8>, Option<Seq<u8>>);

/// `rustls::RootCertStore`, a list of trust anchors.
#[verifier::external_type_specification]
#[verifier::external_body]
pub struct ExRootCertStore(RootCertStore);

/// `rustls::ClientConfig`, the TLS side of a client.
#[verifier::external_type_specification]
#[verifier::external_body]
pub struct ExRustlsConfig(RustlsConfig);

/// The trust anchors that a store holds, in order.
pub uninterp spec fn trust_anchors(store: RootCertStore) -> Seq<Anchor>;

/// The trust anchor that rustls reads from a certificate in DER (what
/// `webpki::anchor_from_trusted_cert` returns for it), if it can.
pub uninterp spec fn anchor_of(der: Seq<u8>) -> Option<Anchor>;

/// What a TLS client was configured with: the trust anchors by which server certificates are
/// judged, the protocol versions that it accepts, and the application protocols that it
/// offers, in order.
pub uninterp spec fn tls_terms(config: RustlsConfig) -> (
    Seq<Anchor>,
    Set<TlsVersion>,
    Seq<Seq<u8>>,
);

/// Whether quinn takes a TLS configuration for QUIC: whether
/// `quinn::crypto::rustls::QuicClientConfig::try_from` succeeds on it.
pub uninterp spec fn quic_ready(config: RustlsConfig) -> bool;

/// `rustls::RootCertStore::empty` makes a store without trust anchors.
pub assume_specification[ RootCertStore::empty ]() -> (store: RootCertStore)
    ensures
        trust_anchors(store) == Seq::<Anchor>::empty(),
;

/// `rustls::RootCertStore::is_empty` tells whether a store has no trust anchor.
pub assume_specification[ RootCertStore::is_empty ](store: &RootCertStore) -> (b: bool)
    ensures
        b == (trust_anchors(*store).len() == 0),
;

/// The values that are there, in order.
pub open spec fn present<T>(values: Seq<Option<T>>) -> Seq<T>
    decreases values.len(),
{
    if values.len() == 0 {
        Seq::empty()
    } else {
        match values.last() {
            Some(value) => present(values.drop_last()).push(value),
            None => present(values.drop_last()),
        }
    }
}

/// The trust anchors in `certs`, in order, without the certificates that cannot be read.
pub open spec fn readable_anchors(certs: Seq<Seq<u8>>) -> Seq<Anchor> {
    present(certs.map_values(|der: Seq<u8>| anchor_of(der)))
}

/// `rustls::RootCertStore::add_parsable_certificates` appends the trust anchor of every
/// certificate that it can read, in order, passes over the others, and returns how many it
/// added and how many it passed over.
#[verifier::external_body]
fn add_parsable_certificates(store: &mut RootCertStore, certs: Vec<Vec<u8>>) -> (counts: (
    usize,
    usize,
))
    ensures
        trust_anchors(*final(store)) == trust_anchors(*old(store)) + present(
            certs.deep_view().map_values(|der: Seq<u8>| anchor_of(der)),
        ),
        counts.0 == present(certs.deep_view().map_values(|der: Seq<u8>| anchor_of(der))).len(),
        counts.0 + counts.1 == certs@.len(),
{
    store.add_parsable_certificates(certs.into_iter().map(rustls::pki_types::CertificateDer::from))
}

/// `rustls::ClientConfig::builder_with_provider`, with the provider that ring backs, makes a
/// client without a certificate of its own that judges servers by `roots`, accepts
/// `versions` and offers `alpn`. The provider has cipher suites of both versions, so there
/// is one to use as soon as a version is given; the one that QUIC asks for,
/// `TLS13_AES_128_GCM_SHA256`, is among them.
#[verifier::external_body]
fn build_client_config(
    roots: &Arc<RootCertStore>,
    versions: &Vec<TlsVersion>,
    alpn: Vec<Vec<u8>>,
) -> (config: RustlsConfig)
    requires
        versions@.len() > 0,
    ensures
        tls_terms(config) == (trust_anchors(**roots), versions@.to_set(), alpn.deep_view()),
        quic_ready(config),
{
    let provider = Arc::new(rustls::crypto::ring::default_provider());
    let versions: Vec<_> = versions.iter().map(|v| match v {
        TlsVersion::Tls12 => &rustls::version::TLS12,
        TlsVersion::Tls13 => &rustls::version::TLS13,
    }).collect();
    let builder = RustlsConfig::builder_with_provider(provider).with_protocol_versions(&versions)
        .expect("ring provider supports TLS 1.2 and TLS 1.3");
    let mut config = builder.with_root_certificates(Arc::clone(roots)).with_no_client_auth();
    config.alpn_protocols = alpn;
    config
}

/// Why the platform's certificate store is of no use.
pub open spec fn no_system_roots(first_error: Option<String>) -> Seq<char> {
    match first_error {
        Some(e) => "no usable system root certificates ("@ + e@ + ")"@,
        None => "no usable system root certificates"@,
    }
}

/// Whether `r` is what the platform's certificate store comes to: a store with every trust anchor
/// that can be read in it, or an error if there are none.
pub open spec fn system_store(
    loaded: NativeCerts,
    r: Result<RootCertStore, ConnectError>,
) -> bool {
    match r {
        Ok(store) => readable_anchors(loaded.certs.deep_view()).len() > 0 && trust_anchors(store)
            == readable_anchors(loaded.certs.deep_view()),
        Err(e) => readable_anchors(loaded.certs.deep_view()).len() == 0 && (
        e matches ConnectError::Tls(m) && m@ == no_system_roots(loaded.first_error)),
    }
}

/// The platform's store is of use if and only if one of its certificates can be read, whatever
/// else went wrong; then the anchor of every certificate that can be read is in it, and no other.
pub proof fn law_system_store(
    loaded: NativeCerts,
    r: Result<RootCertStore, ConnectError>,
    anchor: Anchor,
)
    requires
        system_store(loaded, r),
    ensures
        r is Ok <==> exists|i: int|
            0 <= i < loaded.certs@.len() && anchor_of(#[trigger] loaded.certs@[i]@) is Some,
        r matches Ok(store) ==> (trust_anchors(store).contains(anchor) <==> exists|i: int|
            0 <= i < loaded.certs@.len() && anchor_of(#[trigger] loaded.certs@[i]@) == Some(
                anchor,
            )),
        r matches Err(e) ==> (e matches ConnectError::Tls(m) && m@ == match loaded.first_error {
            None => "no usable system root certificates"@,
            Some(first) => "no usable system root certificates ("@ + first@ + ")"@,
        }),
{
    let certs = loaded.certs.deep_view();
    let anchors = certs.map_values(|der: Seq<u8>| anchor_of(der));
    assert(certs.len() == loaded.certs@.len());
    assert forall|i: int| 0 <= i < certs.len() implies #[trigger] anchors[i] == anchor_of(
        loaded.certs@[i]@,
    ) by {
        assert(loaded.certs@[i].deep_view() =~= loaded.certs@[i]@);
    }
    if exists|i: int|
        0 <= i < loaded.certs@.len() && anchor_of(#[trigger] loaded.certs@[i]@) is Some {
        let i = choose|i: int|
            0 <= i < loaded.certs@.len() && anchor_of(#[trigger] loaded.certs@[i]@) is Some;
        assert(anchors[i] is Some);
        let k = lemma_present_kept(anchors, i);
    }
    if present(anchors).len() > 0 {
        let i = lemma_present_source(anchors, 0);
        assert(anchor_of(loaded.certs@[i]@) is Some);
    }
    if present(anchors).contains(anchor) {
        let k = choose|k: int| 0 <= k < present(anchors).len() && present(anchors)[k] == anchor;
        let i = lemma_present_source(anchors, k);
        assert(anchor_of(loaded.certs@[i]@) == Some(anchor));
    }
    if exists|i: int|
        0 <= i < loaded.certs@.len() && anchor_of(#[trigger] loaded.certs@[i]@) == Some(anchor) {
        let i = choose|i: int|
            0 <= i < loaded.certs@.len() && anchor_of(#[trigger] loaded.certs@[i]@) == Some(anchor);
        assert(anchors[i] == Some(anchor));
        let k = lemma_present_kept(anchors, i);
        assert(present(anchors)[k] == anchor);
    }
}

proof fn lemma_present_kept<T>(values: Seq<Option<T>>, i: int) -> (k: int)
    requires
        0 <= i < values.len(),
        values[i] is Some,
    ensures
        0 <= k < present(values).len(),
        Some(present(values)[k]) == values[i],
    decreases values.len(),
{
    let rest = values.drop_last();
    if i < rest.len() {
        lemma_present_kept(rest, i)
    } else {
        present(rest).len() as int
    }
}

proof fn lemma_present_source<T>(values: Seq<Option<T>>, k: int) -> (i: int)
    requires
        0 <= k < present(values).len(),
    ensures
        0 <= i < values.len(),
        values[i] == Some(present(values)[k]),
    decreases values.len(),
{
    let rest = values.drop_last();
    if k < present(rest).len() {
        lemma_present_source(rest, k)
    } else {
        values.len() - 1
    }
}

/// The trust anchors of the platform's certificate store; an error if there are none.
pub fn system_roots(loaded: NativeCerts) -> (r: Result<RootCertStore, ConnectError>)
    ensures
        system_store(loaded, r),
{
    let mut store = RootCertStore::empty();
    add_parsable_certificates(&mut store, loaded.certs);
    assert(trust_anchors(store) =~= readable_anchors(loaded.certs.deep_view()));
    if store.is_empty() {
        return Err(
            ConnectError::Tls(
                match &loaded.first_error {
                    Some(e) => "no usable system root certificates (".to_owned().concat(
                        e.as_str(),
                    ).concat(")"),
                    None => "no usable system root certificates".to_owned(),
                },
            ),
        );
    }
    Ok(store)
}

/// The trust anchors in force: those of `root_store` if it is given, else those of the
/// platform.
pub open spec fn anchors_in_force(
    root_store: Option<&Arc<RootCertStore>>,
    loaded: NativeCerts,
) -> Seq<Anchor> {
    match root_store {
        Some(roots) => trust_anchors(**roots),
        None => readable_anchors(loaded.certs.deep_view()),
    }
}

fn client_config_for(
    root_store: Option<&Arc<RootCertStore>>,
    loaded: NativeCerts,
    versions: &Vec<TlsVersion>,
    alpn: Vec<Vec<u8>>,
) -> (r: Result<RustlsConfig, ConnectError>)
    requires
        versions@.len() > 0,
    ensures
        match r {
            Ok(config) => (root_store is None ==> anchors_in_force(root_store, loaded).len() > 0)
                && tls_terms(config) == (
                anchors_in_force(root_store, loaded),
                versions@.to_set(),
                alpn.deep_view(),
            ) && quic_ready(config),
            Err(e) => root_store is None && anchors_in_force(root_store, loaded).len() == 0 && (
            e matches ConnectError::Tls(m) && m@ == no_system_roots(loaded.first_error)),
        },
{
    match root_store {
        Some(roots) => Ok(build_client_config(roots, versions, alpn)),
        None => match system_roots(loaded) {
            Ok(store) => Ok(build_client_config(&Arc::new(store), versions, alpn)),
            Err(e) => Err(e),
        },
    }
}

/// Whether `r` is what setting up TLS comes to for a client that accepts these versions and offers
/// these protocols: a configuration with the trust anchors in force, or why there are none.
pub open spec fn tls_set_up(
    root_store: Option<&Arc<RootCertStore>>,
    loaded: NativeCerts,
    versions: Set<TlsVersion>,
    alpn: Seq<Seq<u8>>,
    r: Result<RustlsConfig, ConnectError>,
) -> bool {
    match r {
        Ok(config) => (root_store is None ==> anchors_in_force(root_store, loaded).len() > 0)
            && tls_terms(config) == (anchors_in_force(root_store, loaded), versions, alpn),
        Err(e) => root_store is None && anchors_in_force(root_store, loaded).len() == 0 && (
        e matches ConnectError::Tls(m) && m@ == no_system_roots(loaded.first_error)),
    }
}

/// TLS can be set up if and only if roots are given, or the platform has an anchor that can be
/// read; given roots are the only ones that count then. The versions and the protocols are those
/// that were asked for.
pub proof fn law_tls_set_up(
    root_store: Option<&Arc<RootCertStore>>,
    loaded: NativeCerts,
    versions: Set<TlsVersion>,
    alpn: Seq<Seq<u8>>,
    r: Result<RustlsConfig, ConnectError>,
)
    requires
        tls_set_up(root_store, loaded, versions, alpn, r),
    ensures
        r is Err <==> root_store is None && readable_anchors(loaded.certs.deep_view()).len() == 0,
        r matches Ok(config) ==> {
            &&& root_store matches Some(roots) ==> tls_terms(config).0 == trust_anchors(**roots)
            &&& root_store is None ==> tls_terms(config).0 == readable_anchors(
                loaded.certs.deep_view(),
            )
            &&& tls_terms(config).1 == versions
            &&& tls_terms(config).2 == alpn
        },
        r matches Err(e) ==> (e matches ConnectError::Tls(m) && m@ == match loaded.first_error {
            None => "no usable system root certificates"@,
            Some(first) => "no usable system root certificates ("@ + first@ + ")"@,
        }),
{
}

/// TLS 1.3 WebPKI client config for the ingress; `root_store` override or system roots.
pub fn rustls_client_config(root_store: Option<&Arc<RootCertStore>>, loaded: NativeCerts) -> (r:
    Result<Arc<RustlsConfig>, ConnectError>)
    ensures
        tls_set_up(
            root_store,
            loaded,
            set![TlsVersion::Tls13],
            seq![vstd::utf8::encode_utf8("solana-gun-ingress/1"@)],
            match r {
                Ok(config) => Ok(*config),
                Err(e) => Err(e),
            },
        ),
        match r {
            Ok(config) => (root_store is None ==> anchors_in_force(root_store, loaded).len() > 0)
                && tls_terms(*config) == (
                anchors_in_force(root_store, loaded),
                set![TlsVersion::Tls13],
                seq![vstd::utf8::encode_utf8(ALPN@)],
            ) && quic_ready(*config),
            Err(e) => root_store is None && anchors_in_force(root_store, loaded).len() == 0 && (
            e matches ConnectError::Tls(m) && m@ == no_system_roots(loaded.first_error)),
        },
{
    let versions = vec![TlsVersion::Tls13];
    let alpn = vec![ALPN.as_bytes_vec()];
    assert(versions@.to_set() =~= set![TlsVersion::Tls13]) by {
        assert(versions@[0] == TlsVersion::Tls13);
    }
    assert(alpn.deep_view() =~= seq![vstd::utf8::encode_utf8(ALPN@)]) by {
        assert(alpn@[0].deep_view() =~= alpn@[0]@);
    }
    match client_config_for(root_store, loaded, &versions, alpn) {
        Ok(config) => Ok(Arc::new(config)),
        Err(e) => Err(e),
    }
}

/// WebPKI client config for HTTPS, TLS 1.2 or 1.3; `root_store` override or system roots.
pub fn https_client_config(root_store: Option<&Arc<RootCertStore>>, loaded: NativeCerts) -> (r:
    Result<RustlsConfig, ConnectError>)
    ensures
        tls_set_up(
            root_store,
            loaded,
            set![TlsVersion::Tls12, TlsVersion::Tls13],
            Seq::<Seq<u8>>::empty(),
            r,
        ),
        match r {
            Ok(config) => (root_store is None ==> anchors_in_force(root_store, loaded).len() > 0)
                && tls_terms(config) == (
                anchors_in_force(root_store, loaded),
                set![TlsVersion::Tls12, TlsVersion::Tls13],
                Seq::<Seq<u8>>::empty(),
            ),
            Err(e) => root_store is None && anchors_in_force(root_store, loaded).len() == 0 && (
            e matches ConnectError::Tls(m) && m@ == no_system_roots(loaded.first_error)),
        },
{
    let versions = vec![TlsVersion::Tls13, TlsVersion::Tls12];
    let alpn: Vec<Vec<u8>> = Vec::new();
    assert(versions@.to_set() =~= set![TlsVersion::Tls12, TlsVersion::Tls13]) by {
        assert(versions@[0] == TlsVersion::Tls13);
        assert(versions@[1] == TlsVersion::Tls12);
    }
    assert(alpn.deep_view() =~= Seq::<Seq<u8>>::empty());
    client_config_for(root_store, loaded, &versions, alpn)
}

/// Whether `r` is what comes of settling the trust roots: the settings as they are if they name
/// roots, else with the platform's roots; or an error if those could not be loaded, or if none
/// of them is of use.
pub open spec fn roots_settled(
    config: ClientConfig,
    loaded: Result<NativeCerts, String>,
    r: Result<ClientConfig, ConnectError>,
) -> bool {
    &&& config.root_store is Some ==> r == Ok::<_, ConnectError>(config)
    &&& config.root_store is None ==> match loaded {
        Err(e) => r matches Err(ConnectError::Tls(m)) && m@ == "loading system roots: "@ + e@,
        Ok(loaded) => if readable_anchors(loaded.certs.deep_view()).len() == 0 {
            r matches Err(ConnectError::Tls(m)) && m@ == no_system_roots(loaded.first_error)
        } else {
            &&& r matches Ok(resolved)
            &&& resolved == (ClientConfig { root_store: resolved.root_store, ..config })
            &&& resolved.root_store matches Some(roots)
            &&& trust_anchors(*roots) == readable_anchors(loaded.certs.deep_view())
        },
    }
}

/// Settles the trust roots for a whole run, so that every connection in it shares one store:
/// the settings with the platform's roots, unless they name roots of their own. `loaded` is
/// what the platform's certificate store gave, or why the task that loads it broke off.
pub fn with_resolved_roots(config: ClientConfig, loaded: Result<NativeCerts, String>) -> (r:
    Result<ClientConfig, ConnectError>)
    ensures
        roots_settled(config, loaded, r),
{
    if config.root_store.is_some() {
        return Ok(config);
    }
    match loaded {
        Err(e) => Err(ConnectError::Tls("loading system roots: ".to_owned().concat(e.as_str()))),
        Ok(loaded) => match system_roots(loaded) {
            Ok(store) => Ok(ClientConfig { root_store: Some(Arc::new(store)), ..config }),
            Err(e) => Err(e),
        },
    }
}

/// The values that are there are those of each part, one part after the other: a value that is
/// there counts once, and one that is not leaves nothing.
pub proof fn law_present<T>(a: Seq<Option<T>>, b: Seq<Option<T>>, value: T)
    ensures
        present(Seq::<Option<T>>::empty()) == Seq::<T>::empty(),
        present(seq![Some(value)]) == seq![value],
        present(seq![None::<T>]) == Seq::<T>::empty(),
        present(a + b) == present(a) + present(b),
    decreases b.len(),
{
    reveal_with_fuel(present, 2);
    assert(seq![Some(value)].drop_last() =~= Seq::empty());
    assert(seq![None::<T>].drop_last() =~= Seq::empty());
    assert(present(seq![Some(value)]) =~= seq![value]);
    if b.len() > 0 {
        law_present(a, b.drop_last(), value);
        assert((a + b).drop_last() =~= a + b.drop_last());
        assert(present(a + b) =~= present(a) + present(b));
    } else {
        assert(a + b =~= a);
        assert(present(a) + present(b) =~= present(a));
    }
}

/// One more certificate adds the trust anchor in it, behind those before, if it can be read, and
/// else nothing.
pub proof fn law_readable_anchors(certs: Seq<Seq<u8>>, der: Seq<u8>)
    ensures
        readable_anchors(Seq::<Seq<u8>>::empty()) == Seq::<Anchor>::empty(),
        anchor_of(der) matches Some(anchor) ==> readable_anchors(certs.push(der))
            == readable_anchors(certs).push(anchor),
        anchor_of(der) is None ==> readable_anchors(certs.push(der)) == readable_anchors(certs),
{
    let read = |d: Seq<u8>| anchor_of(d);
    assert(certs.push(der).map_values(read).drop_last() =~= certs.map_values(read));
    assert(certs.push(der).map_values(read).last() == anchor_of(der));
}

/// The trust anchors in force are those of the roots that are given, whatever the platform has,
/// and those of the platform only if none are given.
pub proof fn law_anchors_in_force(roots: &Arc<RootCertStore>, loaded: NativeCerts)
    ensures
        anchors_in_force(Some(roots), loaded) == trust_anchors(**roots),
        anchors_in_force(None, loaded) == readable_anchors(loaded.certs.deep_view()),
{
}

/// Why the platform's certificate store is of no use, with the first error met in it.
pub proof fn law_no_system_roots(error: String)
    ensures
        no_system_roots(None) == "no usable system root certificates"@,
        no_system_roots(Some(error)) == "no usable system root certificates ("@ + error@ + ")"@,
{
}

/// Settling the roots keeps settings that name roots as they are, whatever the platform has. Else
/// it adds all anchors of the platform and changes nothing more; it fails, as a TLS error, if
/// and only if the store could not be loaded or has no anchor that can be read.
pub proof fn law_roots_settled(
    config: ClientConfig,
    loaded: Result<NativeCerts, String>,
    r: Result<ClientConfig, ConnectError>,
)
    requires
        roots_settled(config, loaded, r),
    ensures
        config.root_store is Some ==> (r matches Ok(resolved) && resolved == config),
        r is Err <==> config.root_store is None && (loaded matches Ok(native)
            ==> readable_anchors(native.certs.deep_view()).len() == 0),
        r matches Err(e) ==> match loaded {
            Err(why) => e matches ConnectError::Tls(m) && m@ == "loading system roots: "@ + why@,
            Ok(native) => e matches ConnectError::Tls(m) && m@ == match native.first_error {
                None => "no usable system root certificates"@,
                Some(first) => "no usable system root certificates ("@ + first@ + ")"@,
            },
        },
        r matches Ok(resolved) ==> {
            &&& resolved.idle_timeout == config.idle_timeout
            &&& resolved.keep_alive_interval == config.keep_alive_interval
            &&& resolved.reconnect == config.reconnect
            &&& resolved.send_timeout == config.send_timeout
            &&& config.root_store is None ==> (resolved.root_store matches Some(roots)
                && loaded matches Ok(native) && trust_anchors(*roots) == readable_anchors(
                native.certs.deep_view(),
            ))
        },
{
}

} // verus!
