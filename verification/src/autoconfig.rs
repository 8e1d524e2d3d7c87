//! Opt-in endpoint autoconfiguration: discover endpoints over HTTPS, probe them over
//! QUIC, connect to the fastest, and optionally fall back to a static endpoint.
use crate::address::{endpoint_parts, is_endpoint, split_host_port, SocketAddr};
use crate::config::config_verdict;
use crate::duration::{Duration, NANOS_PER_SEC};
use crate::error::ConnectError;
use crate::text::{colon_joined, decimal, decimal_digits, first_chars, starts_with, trim, trimmed};
use vstd::prelude::*;

verus! {

broadcast use vstd::string::group_string_axioms;

/// Bundled discovery API.
pub const DEFAULT_DISCOVERY_URL: &'static str =
    "https://www.allnodes.com/api/v1/solana-gun/discovery";

/// Upper bound on concurrent endpoint probes; every endpoint is still probed.
pub const MAX_CONCURRENT_PROBES: usize = 16;

/// Settings for autoconfiguration.
#[non_exhaustive]
#[derive(Debug, Clone)]
pub struct AutoConfig {
    /// Discovery API URL; must be `https://`.
    pub discovery_url: String,
    /// Static `host:port` used when autoconfiguration cannot establish the initial
    /// connection. `None` means such failures return [`ConnectError::AutoConfig`].
    pub fallback_endpoint: Option<String>,
    /// Ceiling on the whole discovery request.
    pub discovery_timeout: Duration,
    /// Ceiling on DNS resolution per endpoint and on the QUIC handshake per address.
    pub probe_timeout: Duration,
}

impl Default for AutoConfig {
    fn default() -> (auto: Self)
        ensures
            auto.discovery_url@ == DEFAULT_DISCOVERY_URL@,
            auto.fallback_endpoint is None,
            auto.discovery_timeout@ == 5 * NANOS_PER_SEC,
            auto.probe_timeout@ == 3 * NANOS_PER_SEC,
    {
        AutoConfig {
            discovery_url: DEFAULT_DISCOVERY_URL.to_owned(),
            fallback_endpoint: None,
            discovery_timeout: Duration::from_secs(5),
            probe_timeout: Duration::from_secs(3),
        }
    }
}

impl AutoConfig {
    /// What is wrong with the settings: the first that is not acceptable.
    pub open spec fn problem(self) -> Option<Seq<char>> {
        if self.discovery_url@.len() == 0 {
            Some("discovery_url is empty"@)
        } else if !"https://"@.is_prefix_of(self.discovery_url@) {
            Some("discovery_url must start with https://"@)
        } else if self.discovery_timeout@ == 0 {
            Some("discovery_timeout must be > 0"@)
        } else if self.probe_timeout@ == 0 {
            Some("probe_timeout must be > 0"@)
        } else {
            match self.fallback_endpoint {
                None => None,
                Some(fallback) => match endpoint_parts(fallback@) {
                    Ok(_) => None,
                    Err(e) => Some("fallback_endpoint: "@ + e),
                },
            }
        }
    }

    /// Reject degenerate settings before any network activity.
    pub fn validate(&self) -> (r: Result<(), ConnectError>)
        ensures
            config_verdict(r, self.problem()),
    {
        if self.discovery_url.as_str().is_empty() {
            return Err(ConnectError::Config("discovery_url is empty".to_owned()));
        }
        if !starts_with(self.discovery_url.as_str(), "https://") {
            return Err(ConnectError::Config("discovery_url must start with https://".to_owned()));
        }
        if self.discovery_timeout.is_zero() {
            return Err(ConnectError::Config("discovery_timeout must be > 0".to_owned()));
        }
        if self.probe_timeout.is_zero() {
            return Err(ConnectError::Config("probe_timeout must be > 0".to_owned()));
        }
        if let Some(fallback) = &self.fallback_endpoint {
            match split_host_port(fallback.as_str()) {
                Ok(_) => {},
                Err(e) => {
                    return Err(
                        ConnectError::Config("fallback_endpoint: ".to_owned().concat(e.as_str())),
                    );
                },
            }
        }
        Ok(())
    }
}

/// The settings that are accepted are those with an `https://` URL, with no timeout of zero
/// length, and with a fallback, if there is one, that is an endpoint.
pub proof fn law_acceptable_autoconfig(auto: AutoConfig)
    ensures
        auto.problem() is None <==> {
            &&& "https://"@.is_prefix_of(auto.discovery_url@)
            &&& auto.discovery_timeout@ > 0
            &&& auto.probe_timeout@ > 0
            &&& auto.fallback_endpoint matches Some(fallback) ==> is_endpoint(fallback@)
        },
{
    reveal_strlit("https://");
}

/// How the client's active endpoint was chosen; fixed for the client's lifetime.
#[non_exhaustive]
#[derive(Debug, Clone)]
pub enum EndpointSource {
    /// Supplied by the caller.
    Manual,
    /// Lowest-latency endpoint returned by the discovery API.
    Discovered { endpoint: String, addr: SocketAddr, latency: Duration },
    /// `AutoConfig::fallback_endpoint`, used because of `reason`.
    Fallback { endpoint: String, reason: FallbackReason },
}

/// Why the static fallback was used, or why autoconfiguration failed without one.
#[non_exhaustive]
#[derive(Debug, Clone)]
pub enum FallbackReason {
    /// Transport error, timeout, refused redirect, or non-2xx status (with the body's
    /// `error` code when present, e.g. `503 ENDPOINTS_NOT_FOUND`).
    DiscoveryFailed(String),
    /// Body is not an accepted JSON shape or has no usable `host:port` entries.
    InvalidResponse(String),
    /// Every discovered endpoint failed its probe; `(endpoint, error)` per endpoint.
    AllProbesFailed(Vec<(String, String)>),
    /// The selected endpoint failed the dial or token handshake.
    InitialConnectFailed { endpoint: String, error: String },
}

/// A [`FallbackReason`] as a mathematical value.
pub enum FallbackReasonView {
    DiscoveryFailed(Seq<char>),
    InvalidResponse(Seq<char>),
    AllProbesFailed(Seq<(Seq<char>, Seq<char>)>),
    InitialConnectFailed { endpoint: Seq<char>, error: Seq<char> },
}

impl View for FallbackReason {
    type V = FallbackReasonView;

    open spec fn view(&self) -> FallbackReasonView {
        match self {
            FallbackReason::DiscoveryFailed(e) => FallbackReasonView::DiscoveryFailed(e@),
            FallbackReason::InvalidResponse(e) => FallbackReasonView::InvalidResponse(e@),
            FallbackReason::AllProbesFailed(list) => FallbackReasonView::AllProbesFailed(
                list.deep_view(),
            ),
            FallbackReason::InitialConnectFailed { endpoint, error } =>
                FallbackReasonView::InitialConnectFailed { endpoint: endpoint@, error: error@ },
        }
    }
}

/// The failures one after the other, each in brackets behind a space.
pub open spec fn bracketed(list: Seq<(Seq<char>, Seq<char>)>) -> Seq<char>
    decreases list.len(),
{
    if list.len() == 0 {
        Seq::empty()
    } else {
        bracketed(list.drop_last()) + " ["@ + list.last().0 + ": "@ + list.last().1 + "]"@
    }
}

impl FallbackReasonView {
    /// The reason in words.
    pub open spec fn text(self) -> Seq<char> {
        match self {
            FallbackReasonView::DiscoveryFailed(e) => "discovery request failed: "@ + e,
            FallbackReasonView::InvalidResponse(e) => "discovery response invalid: "@ + e,
            FallbackReasonView::AllProbesFailed(list) => "all "@ + decimal_digits(
                list.len(),
            ) + " discovered endpoints failed their probes:"@ + bracketed(list),
            FallbackReasonView::InitialConnectFailed { endpoint, error } => "selected endpoint "@
                + endpoint + " failed the initial connection: "@ + error,
        }
    }
}

impl FallbackReason {
    /// The reason in words.
    pub open spec fn text(&self) -> Seq<char> {
        self@.text()
    }

    /// The reason in words.
    pub fn message(&self) -> (s: String)
        ensures
            s@ == self.text(),
    {
        match self {
            FallbackReason::DiscoveryFailed(e) => "discovery request failed: ".to_owned().concat(
                e.as_str(),
            ),
            FallbackReason::InvalidResponse(e) => "discovery response invalid: ".to_owned().concat(
                e.as_str(),
            ),
            FallbackReason::AllProbesFailed(list) => {
                let mut s = "all ".to_owned().concat(decimal(list.len() as u64).as_str()).concat(
                    " discovered endpoints failed their probes:",
                );
                let ghost head = s@;
                let ghost all = list.deep_view();
                for i in 0..list.len()
                    invariant
                        all == list.deep_view(),
                        s@ == head + bracketed(all.take(i as int)),
                {
                    s.append(" [");
                    s.append(list[i].0.as_str());
                    s.append(": ");
                    s.append(list[i].1.as_str());
                    s.append("]");
                    proof {
                        assert(all.take(i + 1).drop_last() =~= all.take(i as int));
                        assert(s@ =~= head + bracketed(all.take(i + 1)));
                    }
                }
                proof {
                    assert(all.take(list@.len() as int) =~= all);
                }
                s
            },
            FallbackReason::InitialConnectFailed { endpoint, error } =>
                "selected endpoint ".to_owned().concat(endpoint.as_str()).concat(
                    " failed the initial connection: ",
                ).concat(error.as_str()),
        }
    }
}

// ---------------------------------------------------------------------------------------
// Discovery
// ---------------------------------------------------------------------------------------
/// Accepted discovery response shapes; unknown fields are ignored.
#[derive(Debug)]
pub enum DiscoveryBody {
    /// A list of endpoints.
    Bare(Vec<String>),
    /// An object with such a list.
    Wrapped { endpoints: Vec<String> },
}

impl DiscoveryBody {
    /// The entries of the list.
    pub open spec fn entries(self) -> Seq<Seq<char>> {
        match self {
            DiscoveryBody::Bare(v) => v.deep_view(),
            DiscoveryBody::Wrapped { endpoints: v } => v.deep_view(),
        }
    }
}

/// The endpoints among `entries`, trimmed, each where it first comes.
pub open spec fn usable_endpoints(entries: Seq<Seq<char>>) -> Seq<Seq<char>>
    decreases entries.len(),
{
    if entries.len() == 0 {
        Seq::empty()
    } else {
        let before = usable_endpoints(entries.drop_last());
        let entry = trimmed(entries.last());
        if is_endpoint(entry) && !before.contains(entry) {
            before.push(entry)
        } else {
            before
        }
    }
}

/// What a discovery response says: endpoints, at least one, or why it is of no use.
pub open spec fn endpoints_of(body: Result<DiscoveryBody, String>) -> Result<
    Seq<Seq<char>>,
    FallbackReasonView,
> {
    match body {
        Err(e) => Err(FallbackReasonView::InvalidResponse("not a JSON endpoint list: "@ + e@)),
        Ok(body) => if usable_endpoints(body.entries()).len() == 0 {
            Err(
                FallbackReasonView::InvalidResponse(
                    "no usable endpoints in "@ + decimal_digits(body.entries().len())
                        + " entries"@,
                ),
            )
        } else {
            Ok(usable_endpoints(body.entries()))
        },
    }
}

/// Whether `r` holds the endpoints, or the reason, that `expected` says.
pub open spec fn endpoints_verdict(
    r: Result<Vec<String>, FallbackReason>,
    expected: Result<Seq<Seq<char>>, FallbackReasonView>,
) -> bool {
    match expected {
        Ok(list) => r matches Ok(v) && v.deep_view() == list,
        Err(reason) => r matches Err(e) && e@ == reason,
    }
}

fn contains_text(list: &Vec<String>, text: &String) -> (b: bool)
    ensures
        b == list.deep_view().contains(text@),
{
    for i in 0..list.len()
        invariant
            forall|j: int| 0 <= j < i ==> list.deep_view()[j] != text@,
    {
        assert(list.deep_view()[i as int] == list@[i as int]@);
        if list[i] == *text {
            return true;
        }
    }
    false
}

/// Trimmed, deduplicated `host:port` entries in discovery order; invalid entries dropped.
/// `body` is the response, or why it has neither of the accepted shapes.
pub fn parse_endpoints(body: Result<DiscoveryBody, String>) -> (r: Result<
    Vec<String>,
    FallbackReason,
>)
    ensures
        endpoints_verdict(r, endpoints_of(body)),
{
    let raw = match body {
        Ok(DiscoveryBody::Bare(v)) => v,
        Ok(DiscoveryBody::Wrapped { endpoints }) => endpoints,
        Err(e) => {
            return Err(
                FallbackReason::InvalidResponse(
                    "not a JSON endpoint list: ".to_owned().concat(e.as_str()),
                ),
            );
        },
    };
    let ghost entries = raw.deep_view();
    let mut out: Vec<String> = Vec::new();
    assert(out.deep_view() =~= usable_endpoints(entries.take(0)));
    for i in 0..raw.len()
        invariant
            entries == raw.deep_view(),
            out.deep_view() == usable_endpoints(entries.take(i as int)),
    {
        let entry = trim(raw[i].as_str());
        proof {
            assert(entries.take(i + 1).drop_last() =~= entries.take(i as int));
            assert(entries.take(i + 1).last() == raw@[i as int]@);
        }
        if split_host_port(entry).is_ok() {
            let entry = entry.to_owned();
            if !contains_text(&out, &entry) {
                let ghost before = out.deep_view();
                out.push(entry);
                assert(out.deep_view() =~= before.push(entry@));
            }
        }
    }
    assert(entries.take(raw@.len() as int) =~= entries);
    if out.len() == 0 {
        return Err(
            FallbackReason::InvalidResponse(
                "no usable endpoints in ".to_owned().concat(
                    decimal(raw.len() as u64).as_str(),
                ).concat(" entries"),
            ),
        );
    }
    Ok(out)
}

/// The usable endpoints are exactly the entries that, trimmed, are endpoints: none is lost,
/// however many there are, and none comes twice.
pub proof fn law_usable_endpoints(entries: Seq<Seq<char>>)
    ensures
        forall|endpoint: Seq<char>| #[trigger]
            usable_endpoints(entries).contains(endpoint) <==> is_endpoint(endpoint) && exists|
                i: int,
            |
                0 <= i < entries.len() && trimmed(#[trigger] entries[i]) == endpoint,
        usable_endpoints(entries).no_duplicates(),
        usable_endpoints(entries).len() <= entries.len(),
    decreases entries.len(),
{
    if entries.len() > 0 {
        let rest = entries.drop_last();
        let before = usable_endpoints(rest);
        let entry = trimmed(entries.last());
        law_usable_endpoints(rest);
        let all = usable_endpoints(entries);
        assert forall|endpoint: Seq<char>| #[trigger] all.contains(endpoint) implies is_endpoint(
            endpoint,
        ) && exists|i: int|
            0 <= i < entries.len() && trimmed(#[trigger] entries[i]) == endpoint by {
            if before.contains(endpoint) {
                let i = choose|i: int|
                    0 <= i < rest.len() && trimmed(#[trigger] rest[i]) == endpoint;
                assert(trimmed(entries[i]) == endpoint);
            } else {
                assert(endpoint == entry);
                assert(trimmed(entries[entries.len() - 1]) == endpoint);
            }
        }
        assert forall|endpoint: Seq<char>|
            is_endpoint(endpoint) && (exists|i: int|
                0 <= i < entries.len() && trimmed(#[trigger] entries[i])
                    == endpoint) implies #[trigger] all.contains(endpoint) by {
            let i = choose|i: int|
                0 <= i < entries.len() && trimmed(#[trigger] entries[i]) == endpoint;
            if i < rest.len() {
                assert(trimmed(rest[i]) == endpoint);
                assert(before.contains(endpoint));
                let j = choose|j: int| 0 <= j < before.len() && before[j] == endpoint;
                assert(all[j] == endpoint);
            } else if !before.contains(entry) {
                assert(all.last() == endpoint);
            }
        }
    }
}

/// The usable endpoints come in the order of the entries: where one list of entries begins
/// with another, so do their usable endpoints.
pub proof fn law_usable_endpoints_in_order(entries: Seq<Seq<char>>, k: int)
    requires
        0 <= k <= entries.len(),
    ensures
        usable_endpoints(entries.take(k)).is_prefix_of(usable_endpoints(entries)),
    decreases entries.len(),
{
    if k < entries.len() {
        let rest = entries.drop_last();
        law_usable_endpoints_in_order(rest, k);
        assert(rest.take(k) =~= entries.take(k));
        let a = usable_endpoints(rest.take(k));
        let b = usable_endpoints(rest);
        let c = usable_endpoints(entries);
        assert(c.take(a.len() as int) =~= b.take(a.len() as int));
    } else {
        assert(entries.take(k) =~= entries);
    }
}

/// An error and the errors that brought it about, in words.
#[derive(Debug)]
pub struct ErrorChain {
    /// The error itself.
    pub message: String,
    /// Its source, the source of that, and so on.
    pub sources: Vec<String>,
}

impl ErrorChain {
    /// The chain in one line.
    pub open spec fn text(self) -> Seq<char> {
        colon_joined(seq![self.message@] + self.sources.deep_view())
    }
}

/// Error with its source chain; an HTTP client's top-level message alone is too vague.
pub fn error_chain(e: &ErrorChain) -> (out: String)
    ensures
        out@ == e.text(),
{
    let mut out = e.message.clone();
    let ghost all = seq![e.message@] + e.sources.deep_view();
    proof {
        reveal_with_fuel(colon_joined, 2);
        assert(all.take(1) =~= seq![e.message@]);
    }
    for i in 0..e.sources.len()
        invariant
            all == seq![e.message@] + e.sources.deep_view(),
            out@ == colon_joined(all.take(i + 1)),
    {
        proof {
            assert(all.take(i + 2).drop_last() =~= all.take(i + 1));
            assert(all.take(i + 2).last() == e.sources@[i as int]@);
        }
        out.append(": ");
        out.append(e.sources[i].as_str());
    }
    assert(all.take(e.sources@.len() as int + 1) =~= all);
    out
}

/// What came of the discovery request.
#[derive(Debug)]
pub enum DiscoveryReply {
    /// TLS could not be set up.
    TlsFailed(ConnectError),
    /// The HTTP client could not be set up.
    ClientFailed(ErrorChain),
    /// No response came.
    RequestFailed(ErrorChain),
    /// A response came, but its body could not be read.
    BodyFailed { status: u16, error: ErrorChain },
    /// A response came.
    Answered {
        status: u16,
        body: String,
        /// The string under `error`, if the body is a JSON object with one.
        error_code: Option<String>,
        /// The body as a list of endpoints, or why it is none.
        list: Result<DiscoveryBody, String>,
    },
}

/// The API's `error` code, else the first 200 chars of the body.
pub open spec fn summary_of(error_code: Option<String>, body: Seq<char>) -> Seq<char> {
    match error_code {
        Some(code) => code@,
        None => if body.len() <= 200 {
            body
        } else {
            body.take(200)
        },
    }
}

/// The API's `error` code, else the first 200 chars of the body.
pub fn error_summary(error_code: Option<String>, body: &str) -> (s: String)
    ensures
        s@ == summary_of(error_code, body@),
{
    match error_code {
        Some(code) => code,
        None => first_chars(body, 200).to_owned(),
    }
}

/// What a discovery reply comes to: endpoints, at least one, or why there are none.
pub open spec fn discovered(reply: DiscoveryReply) -> Result<Seq<Seq<char>>, FallbackReasonView> {
    match reply {
        DiscoveryReply::TlsFailed(e) => Err(
            FallbackReasonView::DiscoveryFailed("tls setup: "@ + e.text()),
        ),
        DiscoveryReply::ClientFailed(e) => Err(
            FallbackReasonView::DiscoveryFailed("http client: "@ + e.text()),
        ),
        DiscoveryReply::RequestFailed(e) => Err(FallbackReasonView::DiscoveryFailed(e.text())),
        DiscoveryReply::BodyFailed { status, error } => Err(
            FallbackReasonView::DiscoveryFailed(
                decimal_digits(status as nat) + ": reading body: "@ + error.text(),
            ),
        ),
        DiscoveryReply::Answered { status, body, error_code, list } => if 200 <= status < 300 {
            endpoints_of(list)
        } else {
            Err(
                FallbackReasonView::DiscoveryFailed(
                    decimal_digits(status as nat) + " "@ + summary_of(error_code, body@),
                ),
            )
        },
    }
}

/// What a discovery reply comes to: endpoints, at least one, or why there are none.
pub fn discover(reply: DiscoveryReply) -> (r: Result<Vec<String>, FallbackReason>)
    ensures
        endpoints_verdict(r, discovered(reply)),
{
    match reply {
        DiscoveryReply::TlsFailed(e) => Err(
            FallbackReason::DiscoveryFailed(
                "tls setup: ".to_owned().concat(e.message().as_str()),
            ),
        ),
        DiscoveryReply::ClientFailed(e) => Err(
            FallbackReason::DiscoveryFailed(
                "http client: ".to_owned().concat(error_chain(&e).as_str()),
            ),
        ),
        DiscoveryReply::RequestFailed(e) => Err(FallbackReason::DiscoveryFailed(error_chain(&e))),
        DiscoveryReply::BodyFailed { status, error } => Err(
            FallbackReason::DiscoveryFailed(
                decimal(status as u64).concat(": reading body: ").concat(
                    error_chain(&error).as_str(),
                ),
            ),
        ),
        DiscoveryReply::Answered { status, body, error_code, list } => if 200 <= status && status
            < 300 {
            parse_endpoints(list)
        } else {
            Err(
                FallbackReason::DiscoveryFailed(
                    decimal(status as u64).concat(" ").concat(
                        error_summary(error_code, body.as_str()).as_str(),
                    ),
                ),
            )
        },
    }
}

/// Every endpoint that discovery hands on is an endpoint, and there is at least one.
pub proof fn law_discovered_endpoints(reply: DiscoveryReply)
    ensures
        discovered(reply) matches Ok(list) ==> list.len() > 0 && list.no_duplicates() && forall|
            i: int,
        |
            0 <= i < list.len() ==> is_endpoint(#[trigger] list[i]),
{
    if let DiscoveryReply::Answered { status, body, error_code, list } = reply {
        if let Ok(body) = list {
            let out = usable_endpoints(body.entries());
            law_usable_endpoints(body.entries());
            assert forall|i: int| 0 <= i < out.len() implies is_endpoint(#[trigger] out[i]) by {
                assert(out.contains(out[i]));
            }
        }
    }
}

/// Settings of autoconfiguration that are refused are refused for the first of these that holds
/// of them, in these words.
pub proof fn law_refused_autoconfig(auto: AutoConfig)
    ensures
        ({
            let given = auto.discovery_url@.len() > 0;
            let https = given && "https://"@.is_prefix_of(auto.discovery_url@);
            let discovery = https && auto.discovery_timeout@ > 0;
            let probe = discovery && auto.probe_timeout@ > 0;
            &&& !given ==> auto.problem() == Some("discovery_url is empty"@)
            &&& given && !https ==> auto.problem() == Some("discovery_url must start with https://"@)
            &&& https && !discovery ==> auto.problem() == Some("discovery_timeout must be > 0"@)
            &&& discovery && !probe ==> auto.problem() == Some("probe_timeout must be > 0"@)
            &&& probe && auto.fallback_endpoint is None ==> auto.problem() is None
            &&& probe ==> (auto.fallback_endpoint matches Some(fallback) ==> match endpoint_parts(
                fallback@,
            ) {
                Ok(_) => auto.problem() is None,
                Err(e) => auto.problem() == Some("fallback_endpoint: "@ + e),
            })
        }),
{
}

/// One more failure is one more pair of brackets behind a space.
pub proof fn law_bracketed(list: Seq<(Seq<char>, Seq<char>)>, endpoint: Seq<char>, error: Seq<char>)
    ensures
        bracketed(Seq::<(Seq<char>, Seq<char>)>::empty()) == Seq::<char>::empty(),
        bracketed(list.push((endpoint, error))) == bracketed(list) + (" ["@ + endpoint + ": "@
            + error + "]"@),
{
    assert(list.push((endpoint, error)).drop_last() =~= list);
    assert(bracketed(list.push((endpoint, error))) =~= bracketed(list) + (" ["@ + endpoint + ": "@
        + error + "]"@));
}

/// A reason in words, and as a value: what went wrong, with everything that is known of it.
pub proof fn law_reasons(text: String, endpoint: String, list: Vec<(String, String)>)
    ensures
        FallbackReason::DiscoveryFailed(text).text() == "discovery request failed: "@ + text@,
        FallbackReason::InvalidResponse(text).text() == "discovery response invalid: "@ + text@,
        FallbackReason::AllProbesFailed(list).text() == "all "@ + decimal_digits(list@.len())
            + " discovered endpoints failed their probes:"@ + bracketed(list.deep_view()),
        (FallbackReason::InitialConnectFailed { endpoint, error: text }).text()
            == "selected endpoint "@ + endpoint@ + " failed the initial connection: "@ + text@,
        FallbackReason::DiscoveryFailed(text)@ == FallbackReasonView::DiscoveryFailed(text@),
        FallbackReason::InvalidResponse(text)@ == FallbackReasonView::InvalidResponse(text@),
        FallbackReason::AllProbesFailed(list)@ == FallbackReasonView::AllProbesFailed(
            list.deep_view(),
        ),
        (FallbackReason::InitialConnectFailed { endpoint, error: text })@ == (
        FallbackReasonView::InitialConnectFailed { endpoint: endpoint@, error: text@ }),
{
    assert(list.deep_view().len() == list@.len());
}

proof fn lemma_usable_kept(entries: Seq<Seq<char>>, i: int) -> (k: int)
    requires
        0 <= i < entries.len(),
        is_endpoint(trimmed(entries[i])),
    ensures
        0 <= k < usable_endpoints(entries).len(),
        usable_endpoints(entries)[k] == trimmed(entries[i]),
{
    law_usable_endpoints(entries);
    let out = usable_endpoints(entries);
    assert(out.contains(trimmed(entries[i])));
    choose|k: int| 0 <= k < out.len() && out[k] == trimmed(entries[i])
}

proof fn lemma_usable_source(entries: Seq<Seq<char>>, k: int) -> (i: int)
    requires
        0 <= k < usable_endpoints(entries).len(),
    ensures
        0 <= i < entries.len(),
        trimmed(entries[i]) == usable_endpoints(entries)[k],
        is_endpoint(usable_endpoints(entries)[k]),
{
    law_usable_endpoints(entries);
    let out = usable_endpoints(entries);
    assert(out.contains(out[k]));
    choose|i: int| 0 <= i < entries.len() && trimmed(#[trigger] entries[i]) == out[k]
}

proof fn lemma_usable_order(entries: Seq<Seq<char>>, a: int, b: int) -> (i: int)
    requires
        0 <= a < b < usable_endpoints(entries).len(),
    ensures
        usable_endpoints(entries)[a] != usable_endpoints(entries)[b],
        0 <= i < entries.len(),
        trimmed(entries[i]) == usable_endpoints(entries)[a],
        forall|j: int|
            0 <= j <= i ==> trimmed(#[trigger] entries[j]) != usable_endpoints(entries)[b],
    decreases entries.len(),
{
    let rest = entries.drop_last();
    let before = usable_endpoints(rest);
    let out = usable_endpoints(entries);
    law_usable_endpoints(entries);
    assert(out[a] == before[a]);
    if b < before.len() {
        let i = lemma_usable_order(rest, a, b);
        assert forall|j: int| 0 <= j <= i implies trimmed(#[trigger] entries[j]) != out[b] by {
            assert(entries[j] == rest[j]);
        }
        i
    } else {
        let i = lemma_usable_source(rest, a);
        assert forall|j: int| 0 <= j <= i implies trimmed(#[trigger] entries[j]) != out[b] by {
            assert(entries[j] == rest[j]);
            if trimmed(rest[j]) == out[b] {
                let k = lemma_usable_kept(rest, j);
                assert(before.contains(before[k]));
            }
        }
        i
    }
}

/// The two shapes of a discovery response with the same list say the same: there are endpoints
/// if, and only if, an entry of the list is one once trimmed. Else the response is invalid.
pub proof fn law_discovery_list(
    v: Vec<String>,
    body: DiscoveryBody,
    r: Result<Vec<String>, FallbackReason>,
)
    requires
        body == DiscoveryBody::Bare(v) || body == (DiscoveryBody::Wrapped { endpoints: v }),
        endpoints_verdict(r, endpoints_of(Ok(body))),
    ensures
        endpoints_of(Ok(DiscoveryBody::Bare(v))) == endpoints_of(
            Ok(DiscoveryBody::Wrapped { endpoints: v }),
        ),
        r is Ok <==> exists|i: int| 0 <= i < v@.len() && is_endpoint(trimmed(#[trigger] v@[i]@)),
        r matches Err(e) ==> (e matches FallbackReason::InvalidResponse(m) && m@
            == "no usable endpoints in "@ + decimal_digits(v@.len()) + " entries"@),
{
    let entries = v.deep_view();
    lemma_deep(v);
    if usable_endpoints(entries).len() > 0 {
        let i = lemma_usable_source(entries, 0);
        assert(is_endpoint(trimmed(v@[i]@)));
    }
    if exists|i: int| 0 <= i < v@.len() && is_endpoint(trimmed(#[trigger] v@[i]@)) {
        let i = choose|i: int| 0 <= i < v@.len() && is_endpoint(trimmed(#[trigger] v@[i]@));
        let k = lemma_usable_kept(entries, i);
    }
}

/// No endpoint is lost, whichever shape the response has and however long the list is: every
/// entry that is an endpoint once trimmed is there.
pub proof fn law_no_endpoint_lost(
    v: Vec<String>,
    body: DiscoveryBody,
    r: Result<Vec<String>, FallbackReason>,
)
    requires
        body == DiscoveryBody::Bare(v) || body == (DiscoveryBody::Wrapped { endpoints: v }),
        endpoints_verdict(r, endpoints_of(Ok(body))),
    ensures
        forall|i: int|
            0 <= i < v@.len() && is_endpoint(trimmed(#[trigger] v@[i]@)) ==> (r matches Ok(out)
                && exists|k: int| 0 <= k < out@.len() && #[trigger] out@[k]@ == trimmed(v@[i]@)),
{
    let entries = v.deep_view();
    lemma_deep(v);
    assert forall|i: int| 0 <= i < v@.len() && is_endpoint(trimmed(#[trigger] v@[i]@)) implies (
    r matches Ok(out) && exists|k: int|
        0 <= k < out@.len() && #[trigger] out@[k]@ == trimmed(v@[i]@)) by {
        let k = lemma_usable_kept(entries, i);
        let out = r->Ok_0;
        lemma_deep(out);
        assert(out@[k]@ == trimmed(v@[i]@));
    }
}

/// No endpoint is made up: each is an entry of the list, trimmed, and is an endpoint.
pub proof fn law_no_endpoint_made_up(
    v: Vec<String>,
    body: DiscoveryBody,
    r: Result<Vec<String>, FallbackReason>,
)
    requires
        body == DiscoveryBody::Bare(v) || body == (DiscoveryBody::Wrapped { endpoints: v }),
        endpoints_verdict(r, endpoints_of(Ok(body))),
    ensures
        r matches Ok(out) ==> forall|k: int|
            0 <= k < out@.len() ==> is_endpoint(#[trigger] out@[k]@) && exists|i: int|
                0 <= i < v@.len() && trimmed(#[trigger] v@[i]@) == out@[k]@,
{
    let entries = v.deep_view();
    lemma_deep(v);
    if let Ok(out) = r {
        lemma_deep(out);
        assert forall|k: int| 0 <= k < out@.len() implies is_endpoint(#[trigger] out@[k]@)
            && exists|i: int| 0 <= i < v@.len() && trimmed(#[trigger] v@[i]@) == out@[k]@ by {
            let i = lemma_usable_source(entries, k);
            assert(trimmed(v@[i]@) == out@[k]@);
        }
    }
}

/// Endpoints come once, in the order of the list: of two, the first has an entry before which,
/// and at which, the second has none.
pub proof fn law_endpoints_in_list_order(
    v: Vec<String>,
    body: DiscoveryBody,
    r: Result<Vec<String>, FallbackReason>,
)
    requires
        body == DiscoveryBody::Bare(v) || body == (DiscoveryBody::Wrapped { endpoints: v }),
        endpoints_verdict(r, endpoints_of(Ok(body))),
    ensures
        r matches Ok(out) ==> forall|a: int, b: int|
            0 <= a < b < out@.len() ==> #[trigger] out@[a]@ != #[trigger] out@[b]@ && exists|i: int|
                0 <= i < v@.len() && trimmed(#[trigger] v@[i]@) == out@[a]@ && forall|j: int|
                    0 <= j <= i ==> trimmed(#[trigger] v@[j]@) != out@[b]@,
{
    let entries = v.deep_view();
    lemma_deep(v);
    if let Ok(out) = r {
        lemma_deep(out);
        assert forall|a: int, b: int| 0 <= a < b < out@.len() implies #[trigger] out@[a]@
            != #[trigger] out@[b]@ && exists|i: int|
            0 <= i < v@.len() && trimmed(#[trigger] v@[i]@) == out@[a]@ && forall|j: int|
                0 <= j <= i ==> trimmed(#[trigger] v@[j]@) != out@[b]@ by {
            let i = lemma_usable_order(entries, a, b);
            assert(trimmed(v@[i]@) == out@[a]@);
            assert forall|j: int| 0 <= j <= i implies trimmed(#[trigger] v@[j]@) != out@[b]@ by {
                assert(trimmed(entries[j]) != usable_endpoints(entries)[b]);
            }
        }
    }
}

proof fn lemma_deep(v: Vec<String>)
    ensures
        v.deep_view().len() == v@.len(),
        forall|i: int| 0 <= i < v@.len() ==> v.deep_view()[i] == #[trigger] v@[i]@,
{
}

/// A chain with one more source is the chain without it, a colon, and that source; a chain
/// without sources is its message.
pub proof fn law_error_chain(e: ErrorChain, longer: ErrorChain, source: String)
    requires
        longer.message@ == e.message@,
        longer.sources@ == e.sources@.push(source),
    ensures
        e.sources@.len() == 0 ==> e.text() == e.message@,
        longer.text() == e.text() + ": "@ + source@,
{
    let texts = seq![e.message@] + e.sources.deep_view();
    crate::text::law_colon_joined(texts, source@);
    crate::text::law_colon_joined(texts, e.message@);
    if e.sources@.len() == 0 {
        assert(texts =~= seq![e.message@]);
    }
    assert(seq![longer.message@] + longer.sources.deep_view() =~= texts.push(source@));
}

/// What a discovery reply comes to, by what came back. No response, one that cannot be read, and
/// a status other than 2xx are a failed request, which says what is known: of a status, the API's
/// error code if the body has one, else at most the first 200 characters of the body. A body
/// that is no list is an invalid response, and a list counts whatever the body and the code.
pub proof fn law_discovery_replies(
    reply: DiscoveryReply,
    r: Result<Vec<String>, FallbackReason>,
)
    requires
        endpoints_verdict(r, discovered(reply)),
    ensures
        match reply {
            DiscoveryReply::TlsFailed(e) => r matches Err(FallbackReason::DiscoveryFailed(m)) && m@
                == "tls setup: "@ + e.text(),
            DiscoveryReply::ClientFailed(e) => r matches Err(FallbackReason::DiscoveryFailed(m))
                && m@ == "http client: "@ + e.text(),
            DiscoveryReply::RequestFailed(e) => r matches Err(FallbackReason::DiscoveryFailed(m))
                && m@ == e.text(),
            DiscoveryReply::BodyFailed { status, error } => r matches Err(
                FallbackReason::DiscoveryFailed(m),
            ) && m@ == decimal_digits(status as nat) + ": reading body: "@ + error.text(),
            DiscoveryReply::Answered { status, body, error_code, list } => if status < 200 || status
                >= 300 {
                &&& r matches Err(FallbackReason::DiscoveryFailed(m))
                &&& error_code matches Some(code) ==> m@ == decimal_digits(status as nat) + " "@
                    + code@
                &&& error_code is None && body@.len() <= 200 ==> m@ == decimal_digits(status as nat)
                    + " "@ + body@
                &&& error_code is None && body@.len() > 200 ==> m@ == decimal_digits(status as nat)
                    + " "@ + body@.take(200)
            } else {
                &&& endpoints_verdict(r, endpoints_of(list))
                &&& list matches Err(e) ==> (r matches Err(FallbackReason::InvalidResponse(m)) && m@
                    == "not a JSON endpoint list: "@ + e@)
            },
        },
{
}

/// What is expected of a result holds of it: endpoints come as expected, one by one, and so does
/// a reason.
pub proof fn law_endpoints_verdict(
    r: Result<Vec<String>, FallbackReason>,
    expected: Result<Seq<Seq<char>>, FallbackReasonView>,
)
    requires
        endpoints_verdict(r, expected),
    ensures
        r is Ok <==> expected is Ok,
        r matches Ok(v) ==> (expected matches Ok(list) && v@.len() == list.len() && forall|i: int|
            0 <= i < list.len() ==> #[trigger] v@[i]@ == list[i]),
        r matches Err(e) ==> (expected matches Err(reason) && e@ == reason),
{
    if let Ok(v) = r {
        assert(v.deep_view().len() == v@.len());
        assert forall|i: int| 0 <= i < v@.len() implies #[trigger] v@[i]@ == v.deep_view()[i] by {}
    }
}

/// A list without a usable endpoint, and only such a list, is an invalid response, which says how
/// many entries it has.
pub proof fn law_no_usable_endpoint(v: Vec<String>, body: DiscoveryBody)
    requires
        body == DiscoveryBody::Bare(v) || body == (DiscoveryBody::Wrapped { endpoints: v }),
    ensures
        (exists|i: int| 0 <= i < v@.len() && is_endpoint(trimmed(#[trigger] v@[i]@)))
            <==> endpoints_of(Ok(body)) is Ok,
        endpoints_of(Ok(body)) matches Err(e) ==> e == FallbackReasonView::InvalidResponse(
            "no usable endpoints in "@ + decimal_digits(v@.len()) + " entries"@,
        ),
{
    let entries = v.deep_view();
    lemma_deep(v);
    if usable_endpoints(entries).len() > 0 {
        let i = lemma_usable_source(entries, 0);
        assert(is_endpoint(trimmed(v@[i]@)));
    }
    if exists|i: int| 0 <= i < v@.len() && is_endpoint(trimmed(#[trigger] v@[i]@)) {
        let i = choose|i: int| 0 <= i < v@.len() && is_endpoint(trimmed(#[trigger] v@[i]@));
        let k = lemma_usable_kept(entries, i);
    }
}

/// A summary is the API's error code if there is one, whatever the body; else what the body begins
/// with, 200 characters at most, and all of it if it is no longer.
pub proof fn law_summary(error_code: Option<String>, body: Seq<char>)
    ensures
        error_code matches Some(code) ==> summary_of(error_code, body) == code@,
        error_code is None ==> {
            &&& summary_of(error_code, body).is_prefix_of(body)
            &&& summary_of(error_code, body).len() == if body.len() <= 200 {
                body.len()
            } else {
                200
            }
        },
{
    if error_code is None {
        let summary = summary_of(error_code, body);
        assert(summary =~= body.take(summary.len() as int));
    }
}

} // verus!
