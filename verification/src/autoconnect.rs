//! The course of an automatic connect: discover, probe, dial the fastest, fall back.
use crate::address::{endpoint_parts, is_endpoint, split_host_port};
use crate::autoconfig::{
    discover, discovered, endpoints_verdict, law_discovery_list, law_endpoints_in_list_order,
    law_no_endpoint_lost, law_no_endpoint_made_up, law_no_usable_endpoint, AutoConfig,
    DiscoveryBody, DiscoveryReply, EndpointSource, FallbackReason, FallbackReasonView,
};
use crate::client::{preflight, token_problem};
use crate::config::ClientConfig;
use crate::error::{AutoConfigError, ConnectError};
use crate::probe::{
    all_probed, best_result, by_place, failed_at, failures, law_any_reached_endpoint_counts,
    law_failures_in_order, law_none_reached, law_reached_endpoints, probe_all, probes_of,
    reached_endpoints, without_places, ProbeOk, ProbeOutcome,
};
use crate::text::trimmed;
use crate::tls::{roots_settled, with_resolved_roots, NativeCerts};
use vstd::prelude::*;
use vstd::utf8::encode_utf8;

verus! {

/// Where an automatic connect stands, and so what is to be done next.
#[derive(Debug)]
pub enum AutoStep {
    /// Send the discovery request.
    Discover,
    /// Probe these endpoints, all of them.
    Probe { endpoints: Vec<String> },
    /// Dial the address of `best`, whose certificate has to name `host`.
    DialDiscovered { best: ProbeOk, host: String },
    /// Connect to the static endpoint, because of `reason`.
    DialFallback { endpoint: String, reason: FallbackReason },
    /// Connected.
    Connected { source: EndpointSource },
    /// Not connected.
    Failed { error: ConnectError },
}

/// What came of it.
#[derive(Debug)]
pub enum AutoEvent {
    /// Of the discovery request.
    Discovery(DiscoveryReply),
    /// Of the probes, in the order in which they ended.
    Probes(Vec<ProbeOutcome>),
    /// Of a dial.
    Dialed(Result<(), ConnectError>),
}

/// What is wrong before anything is done: the settings, or else the token, or else the settings of
/// autoconfiguration.
pub open spec fn auto_problem(
    config: ClientConfig,
    token: Seq<u8>,
    auto: AutoConfig,
) -> Option<Seq<char>> {
    match (config.problem(), token_problem(token)) {
        (Some(problem), _) => Some(problem),
        (None, Some(problem)) => Some(problem),
        (None, None) => auto.problem(),
    }
}

/// Nothing is done unless the settings, the token and the settings of autoconfiguration are all
/// acceptable; where several are not, the first of them is what is reported.
pub proof fn law_auto_problem(config: ClientConfig, token: Seq<u8>, auto: AutoConfig)
    ensures
        auto_problem(config, token, auto) is None <==> config.problem() is None && token_problem(
            token,
        ) is None && auto.problem() is None,
        config.problem() is Some ==> auto_problem(config, token, auto) == config.problem(),
        config.problem() is None && token_problem(token) is Some ==> auto_problem(
            config,
            token,
            auto,
        ) == token_problem(token),
        config.problem() is None && token_problem(token) is None ==> auto_problem(
            config,
            token,
            auto,
        ) == auto.problem(),
{
}

/// Checks the settings, the token and the settings of autoconfiguration, in this order, before
/// anything is done.
pub fn connect_auto(token: &str, config: &ClientConfig, auto: &AutoConfig) -> (r: Result<
    (),
    ConnectError,
>)
    ensures
        crate::config::config_verdict(r, auto_problem(*config, encode_utf8(token@), *auto)),
        match (config.problem(), token_problem(encode_utf8(token@)), auto.problem()) {
            (None, None, None) => r is Ok,
            (None, None, Some(m)) => r matches Err(ConnectError::Config(e)) && e@ == m,
            (None, Some(m), _) => r matches Err(ConnectError::Config(e)) && e@ == m,
            (Some(m), _, _) => r matches Err(ConnectError::Config(e)) && e@ == m,
        },
{
    match preflight(config, token) {
        Err(e) => Err(e),
        Ok(()) => auto.validate(),
    }
}

/// Whether `r` is how an automatic connect begins: with the trust roots settled, and discovery
/// next; or with the failure to settle them, and nothing next.
pub open spec fn begun_with_roots(
    config: ClientConfig,
    loaded: Result<NativeCerts, String>,
    r: Result<(ClientConfig, AutoStep), ConnectError>,
) -> bool {
    match r {
        Ok(begun) => roots_settled(config, loaded, Ok(begun.0)) && begun.1 == AutoStep::Discover,
        Err(e) => roots_settled(config, loaded, Err(e)),
    }
}

/// An automatic connect begins with discovery if and only if roots are named, or the platform has
/// one that can be read. Else it ends with a TLS error of its own, and with no other step, also
/// where a static endpoint is configured.
pub proof fn law_begun_with_roots(
    config: ClientConfig,
    loaded: Result<NativeCerts, String>,
    r: Result<(ClientConfig, AutoStep), ConnectError>,
)
    requires
        begun_with_roots(config, loaded, r),
    ensures
        r is Ok <==> config.root_store is Some || (loaded matches Ok(native)
            && crate::tls::readable_anchors(native.certs.deep_view()).len() > 0),
        r matches Ok(begun) ==> begun.1 is Discover && begun.0.root_store is Some,
        r matches Ok(begun) ==> (config.root_store is Some ==> begun.0 == config),
        r matches Err(e) ==> e is Tls,
{
}

/// Begins an automatic connect whose settings were checked: settles the trust roots for all of
/// it, and goes on with discovery. Without usable roots it ends here, with that failure as it
/// is: a static endpoint is not tried. `loaded` is what the platform's certificate store gave,
/// or why the task that loads it broke off.
pub fn begin_with_roots(config: ClientConfig, loaded: Result<NativeCerts, String>) -> (r: Result<
    (ClientConfig, AutoStep),
    ConnectError,
>)
    ensures
        begun_with_roots(config, loaded, r),
        match r {
            Ok((resolved, step)) => roots_settled(config, loaded, Ok(resolved)) && step
                == AutoStep::Discover,
            Err(e) => roots_settled(config, loaded, Err(e)) && e is Tls,
        },
{
    match with_resolved_roots(config, loaded) {
        Ok(resolved) => Ok((resolved, AutoStep::Discover)),
        Err(e) => Err(e),
    }
}

/// Whether `next` is what comes after no discovered endpoint could be used, for `reason`: the
/// static endpoint, or the end if none is configured.
pub open spec fn falls_back(auto: AutoConfig, reason: FallbackReasonView, next: AutoStep) -> bool {
    match auto.fallback_endpoint {
        Some(fallback) => next matches AutoStep::DialFallback { endpoint, reason: r } && endpoint@
            == fallback@ && r@ == reason,
        None => next matches AutoStep::Failed { error: ConnectError::AutoConfig(a) } && a.reason@
            == reason && a.fallback_endpoint is None && a.fallback_error is None,
    }
}

fn fall_back(auto: &AutoConfig, reason: FallbackReason) -> (next: AutoStep)
    ensures
        falls_back(*auto, reason@, next),
{
    match &auto.fallback_endpoint {
        Some(fallback) => AutoStep::DialFallback { endpoint: fallback.clone(), reason },
        None => AutoStep::Failed {
            error: ConnectError::AutoConfig(
                AutoConfigError { reason, fallback_endpoint: None, fallback_error: None },
            ),
        },
    }
}

/// Whether `next` is what comes after probes of which the best is `best`.
pub open spec fn dials(auto: AutoConfig, best: ProbeOk, next: AutoStep) -> bool {
    match endpoint_parts(best.endpoint@) {
        Ok((host, _)) => next matches AutoStep::DialDiscovered { best: b, host: h } && b == best
            && h@ == host,
        Err(e) => falls_back(auto, FallbackReasonView::InvalidResponse(e), next),
    }
}

/// Whether `event` is an answer to what is to be done at `step`.
pub open spec fn answers(step: AutoStep, event: AutoEvent) -> bool {
    match step {
        AutoStep::Discover => event is Discovery,
        AutoStep::Probe { .. } => event is Probes,
        AutoStep::DialDiscovered { .. } => event is Dialed,
        AutoStep::DialFallback { .. } => event is Dialed,
        AutoStep::Connected { .. } => false,
        AutoStep::Failed { .. } => false,
    }
}

/// Whether an automatic connect goes on from `step` to `next` when `event` happens. An event
/// that is no answer to the step changes nothing.
pub open spec fn goes_on(
    auto: AutoConfig,
    step: AutoStep,
    event: AutoEvent,
    next: AutoStep,
) -> bool {
    match (step, event) {
        (AutoStep::Discover, AutoEvent::Discovery(reply)) => match discovered(reply) {
            Ok(list) => next matches AutoStep::Probe { endpoints } && endpoints.deep_view() == list,
            Err(reason) => falls_back(auto, reason, next),
        },
        (AutoStep::Probe { .. }, AutoEvent::Probes(outcomes)) => if reached_endpoints(
            outcomes@,
        ).len() > 0 {
            exists|i: int| #[trigger]
                best_result(reached_endpoints(outcomes@), i) && dials(
                    auto,
                    reached_endpoints(outcomes@)[i].1,
                    next,
                )
        } else {
            falls_back(
                auto,
                FallbackReasonView::AllProbesFailed(without_places(by_place(failures(outcomes@)))),
                next,
            )
        },
        (AutoStep::DialDiscovered { best, host }, AutoEvent::Dialed(Ok(_))) => next
            == AutoStep::Connected {
            source: EndpointSource::Discovered {
                endpoint: best.endpoint,
                addr: best.addr,
                latency: best.latency,
            },
        },
        (AutoStep::DialDiscovered { best, host }, AutoEvent::Dialed(Err(e))) => falls_back(
            auto,
            FallbackReasonView::InitialConnectFailed {
                endpoint: best.endpoint@,
                error: e.text(),
            },
            next,
        ),
        (AutoStep::DialFallback { endpoint, reason }, AutoEvent::Dialed(Ok(_))) => next
            == AutoStep::Connected { source: EndpointSource::Fallback { endpoint, reason } },
        (AutoStep::DialFallback { endpoint, reason }, AutoEvent::Dialed(Err(e))) => next
            == AutoStep::Failed {
            error: ConnectError::AutoConfig(
                AutoConfigError {
                    reason,
                    fallback_endpoint: Some(endpoint),
                    fallback_error: Some(Box::new(e)),
                },
            ),
        },
        _ => next == step,
    }
}

/// What comes after probes: the dial of the best endpoint, or the fallback.
fn after_probes(auto: &AutoConfig, outcomes: Vec<ProbeOutcome>) -> (next: AutoStep)
    ensures
        if reached_endpoints(outcomes@).len() > 0 {
            exists|i: int| #[trigger]
                best_result(reached_endpoints(outcomes@), i) && dials(
                    *auto,
                    reached_endpoints(outcomes@)[i].1,
                    next,
                )
        } else {
            falls_back(
                *auto,
                FallbackReasonView::AllProbesFailed(without_places(by_place(failures(outcomes@)))),
                next,
            )
        },
{
    match probe_all(outcomes) {
        Err(reason) => fall_back(auto, reason),
        Ok(best) => match split_host_port(best.endpoint.as_str()) {
            Ok((host, _)) => {
                let host = host.to_owned();
                AutoStep::DialDiscovered { best, host }
            },
            Err(e) => fall_back(auto, FallbackReason::InvalidResponse(e)),
        },
    }
}

/// Takes note of what came of a step, and says what is to be done next.
pub fn advance(auto: &AutoConfig, step: AutoStep, event: AutoEvent) -> (next: AutoStep)
    ensures
        goes_on(*auto, step, event, next),
{
    match (step, event) {
        (AutoStep::Discover, AutoEvent::Discovery(reply)) => match discover(reply) {
            Ok(endpoints) => AutoStep::Probe { endpoints },
            Err(reason) => fall_back(auto, reason),
        },
        (AutoStep::Probe { .. }, AutoEvent::Probes(outcomes)) => after_probes(auto, outcomes),
        (AutoStep::DialDiscovered { best, .. }, AutoEvent::Dialed(Ok(_))) => AutoStep::Connected {
            source: EndpointSource::Discovered {
                endpoint: best.endpoint,
                addr: best.addr,
                latency: best.latency,
            },
        },
        (AutoStep::DialDiscovered { best, .. }, AutoEvent::Dialed(Err(e))) => fall_back(
            auto,
            FallbackReason::InitialConnectFailed { endpoint: best.endpoint, error: e.message() },
        ),
        (AutoStep::DialFallback { endpoint, reason }, AutoEvent::Dialed(Ok(_))) =>
            AutoStep::Connected { source: EndpointSource::Fallback { endpoint, reason } },
        (AutoStep::DialFallback { endpoint, reason }, AutoEvent::Dialed(Err(e))) =>
            AutoStep::Failed {
                error: ConnectError::AutoConfig(
                    AutoConfigError {
                        reason,
                        fallback_endpoint: Some(endpoint),
                        fallback_error: Some(Box::new(e)),
                    },
                ),
            },
        (step, _) => step,
    }
}

/// How many answers an automatic connect may still take.
pub open spec fn answers_left(step: AutoStep) -> nat {
    match step {
        AutoStep::Discover => 4,
        AutoStep::Probe { .. } => 3,
        AutoStep::DialDiscovered { .. } => 2,
        AutoStep::DialFallback { .. } => 1,
        AutoStep::Connected { .. } => 0,
        AutoStep::Failed { .. } => 0,
    }
}

/// Every answer brings an automatic connect nearer to its end, so it ends after one discovery
/// request, one round of probes, one dial and one fallback at most. Any other event leaves it
/// as it is.
pub proof fn law_every_answer_counts(
    auto: AutoConfig,
    step: AutoStep,
    event: AutoEvent,
    next: AutoStep,
)
    requires
        goes_on(auto, step, event, next),
    ensures
        answers(step, event) ==> answers_left(next) < answers_left(step),
        !answers(step, event) ==> next == step,
{
}

/// What holds at every step of an automatic connect: the static endpoint in use is the one
/// that is configured, a connected client has a discovered or a fallback source, and a
/// failure names the static endpoint and how it failed if, and only if, one is configured.
pub open spec fn consistent(auto: AutoConfig, step: AutoStep) -> bool {
    match step {
        AutoStep::DialFallback { endpoint, .. } => auto.fallback_endpoint matches Some(f) && f@
            == endpoint@,
        AutoStep::Connected { source: EndpointSource::Fallback { endpoint, .. } } =>
            auto.fallback_endpoint matches Some(f) && f@ == endpoint@,
        AutoStep::Connected { source: EndpointSource::Manual } => false,
        AutoStep::Failed { error: ConnectError::AutoConfig(a) } => match auto.fallback_endpoint {
            Some(f) => a.fallback_endpoint matches Some(e) && e@ == f@ && a.fallback_error is Some,
            None => a.fallback_endpoint is None && a.fallback_error is None,
        },
        AutoStep::Failed { .. } => false,
        _ => true,
    }
}

/// An automatic connect begins consistent and stays so, whatever happens.
pub proof fn law_stays_consistent(
    auto: AutoConfig,
    step: AutoStep,
    event: AutoEvent,
    next: AutoStep,
)
    requires
        consistent(auto, step),
        goes_on(auto, step, event, next),
    ensures
        consistent(auto, AutoStep::Discover),
        consistent(auto, next),
{
}

/// Without a static endpoint none is ever dialed.
pub proof fn law_no_fallback_unless_configured(
    auto: AutoConfig,
    step: AutoStep,
    event: AutoEvent,
    next: AutoStep,
)
    requires
        auto.fallback_endpoint is None,
        !(step is DialFallback),
        goes_on(auto, step, event, next),
    ensures
        !(next is DialFallback),
{
}

/// As long as one discovered endpoint is reached, however many others are not, the next thing
/// is to dial a discovered endpoint.
pub proof fn law_partial_failure_is_tolerated(
    auto: AutoConfig,
    endpoints: Vec<String>,
    outcomes: Vec<ProbeOutcome>,
    next: AutoStep,
)
    requires
        reached_endpoints(outcomes@).len() > 0,
        forall|i: int|
            0 <= i < reached_endpoints(outcomes@).len() ==> crate::address::is_endpoint(
                (#[trigger] reached_endpoints(outcomes@)[i]).1.endpoint@,
            ),
        goes_on(auto, AutoStep::Probe { endpoints }, AutoEvent::Probes(outcomes), next),
    ensures
        next is DialDiscovered,
{
}

/// Once no discovered endpoint can be used, the static endpoint is dialed if one is configured,
/// and else the connect fails; either way with the reason, whatever it is.
pub proof fn law_falls_back(auto: AutoConfig, reason: FallbackReasonView, next: AutoStep)
    requires
        falls_back(auto, reason, next),
    ensures
        auto.fallback_endpoint matches Some(fallback) ==> (next matches AutoStep::DialFallback {
            endpoint,
            reason: r,
        } && endpoint@ == fallback@ && r@ == reason),
        auto.fallback_endpoint is None ==> (next matches AutoStep::Failed {
            error: ConnectError::AutoConfig(a),
        } && a.reason@ == reason && a.fallback_endpoint is None && a.fallback_error is None),
{
}

/// After a 2xx reply with a list, of either shape, every entry of the list that is an endpoint
/// once trimmed is probed, however many there are.
pub proof fn law_every_endpoint_is_probed(
    auto: AutoConfig,
    status: u16,
    body: String,
    error_code: Option<String>,
    v: Vec<String>,
    list: DiscoveryBody,
    next: AutoStep,
)
    requires
        200 <= status < 300,
        list == DiscoveryBody::Bare(v) || list == (DiscoveryBody::Wrapped { endpoints: v }),
        goes_on(
            auto,
            AutoStep::Discover,
            AutoEvent::Discovery(
                DiscoveryReply::Answered { status, body, error_code, list: Ok(list) },
            ),
            next,
        ),
    ensures
        next is Probe <==> exists|i: int|
            0 <= i < v@.len() && is_endpoint(trimmed(#[trigger] v@[i]@)),
        forall|i: int|
            0 <= i < v@.len() && is_endpoint(trimmed(#[trigger] v@[i]@)) ==> (
            next matches AutoStep::Probe { endpoints } && exists|k: int|
                0 <= k < endpoints@.len() && #[trigger] endpoints@[k]@ == trimmed(v@[i]@)),
        !(next is Probe) ==> falls_back(
            auto,
            FallbackReasonView::InvalidResponse(
                "no usable endpoints in "@ + crate::text::decimal_digits(v@.len()) + " entries"@,
            ),
            next,
        ),
{
    match next {
        AutoStep::Probe { endpoints } => {
            let r: Result<Vec<String>, FallbackReason> = Ok(endpoints);
            law_discovery_list(v, list, r);
            law_no_endpoint_lost(v, list, r);
        },
        _ => {
            law_no_usable_endpoint(v, list);
        },
    }
}

/// After such a reply nothing else is probed: every endpoint is an entry of the list, trimmed.
pub proof fn law_only_listed_endpoints_are_probed(
    auto: AutoConfig,
    status: u16,
    body: String,
    error_code: Option<String>,
    v: Vec<String>,
    list: DiscoveryBody,
    endpoints: Vec<String>,
)
    requires
        200 <= status < 300,
        list == DiscoveryBody::Bare(v) || list == (DiscoveryBody::Wrapped { endpoints: v }),
        goes_on(
            auto,
            AutoStep::Discover,
            AutoEvent::Discovery(
                DiscoveryReply::Answered { status, body, error_code, list: Ok(list) },
            ),
            AutoStep::Probe { endpoints },
        ),
    ensures
        endpoints@.len() > 0,
        forall|k: int|
            0 <= k < endpoints@.len() ==> is_endpoint(#[trigger] endpoints@[k]@) && exists|i: int|
                0 <= i < v@.len() && trimmed(#[trigger] v@[i]@) == endpoints@[k]@,
{
    let r: Result<Vec<String>, FallbackReason> = Ok(endpoints);
    law_no_endpoint_made_up(v, list, r);
    let out = r->Ok_0;
    assert(out == endpoints);
    assert forall|k: int| 0 <= k < endpoints@.len() implies is_endpoint(#[trigger] endpoints@[k]@)
        && exists|i: int|
        0 <= i < v@.len() && trimmed(#[trigger] v@[i]@) == endpoints@[k]@ by {
        assert(is_endpoint(out@[k]@));
    }
}

/// After such a reply nothing is probed twice, and the endpoints keep the order of the list: of
/// two, the first has an entry before which, and at which, the second has none.
pub proof fn law_endpoints_are_probed_in_order(
    auto: AutoConfig,
    status: u16,
    body: String,
    error_code: Option<String>,
    v: Vec<String>,
    list: DiscoveryBody,
    endpoints: Vec<String>,
)
    requires
        200 <= status < 300,
        list == DiscoveryBody::Bare(v) || list == (DiscoveryBody::Wrapped { endpoints: v }),
        goes_on(
            auto,
            AutoStep::Discover,
            AutoEvent::Discovery(
                DiscoveryReply::Answered { status, body, error_code, list: Ok(list) },
            ),
            AutoStep::Probe { endpoints },
        ),
    ensures
        forall|a: int, b: int|
            0 <= a < b < endpoints@.len() ==> #[trigger] endpoints@[a]@ != #[trigger] endpoints@[b]@
                && exists|i: int|
                0 <= i < v@.len() && trimmed(#[trigger] v@[i]@) == endpoints@[a]@ && forall|j: int|
                    0 <= j <= i ==> trimmed(#[trigger] v@[j]@) != endpoints@[b]@,
{
    let r: Result<Vec<String>, FallbackReason> = Ok(endpoints);
    law_endpoints_in_list_order(v, list, r);
    let out = r->Ok_0;
    assert(out == endpoints);
    assert forall|a: int, b: int| 0 <= a < b < endpoints@.len() implies #[trigger] endpoints@[a]@
        != #[trigger] endpoints@[b]@ && exists|i: int|
        0 <= i < v@.len() && trimmed(#[trigger] v@[i]@) == endpoints@[a]@ && forall|j: int|
            0 <= j <= i ==> trimmed(#[trigger] v@[j]@) != endpoints@[b]@ by {
        assert(out@[a]@ != out@[b]@);
    }
}

/// After any other reply to the discovery request nothing is probed: a static endpoint is dialed
/// if one is configured, because the request failed, or because a 2xx body is no list.
pub proof fn law_failed_discovery_falls_back(
    auto: AutoConfig,
    reply: DiscoveryReply,
    next: AutoStep,
)
    requires
        !(reply matches DiscoveryReply::Answered { status, list: Ok(_), .. } && 200 <= status
            < 300),
        goes_on(auto, AutoStep::Discover, AutoEvent::Discovery(reply), next),
    ensures
        exists|reason: FallbackReason|
            #![trigger reason@]
            falls_back(auto, reason@, next) && endpoints_verdict(Err(reason), discovered(reply)),
        match reply {
            DiscoveryReply::Answered { status, list: Err(e), .. } => 200 <= status < 300
                ==> falls_back(
                auto,
                FallbackReasonView::InvalidResponse("not a JSON endpoint list: "@ + e@),
                next,
            ),
            _ => true,
        },
{
    assert(discovered(reply) is Err);
    let reason = match next {
        AutoStep::DialFallback { endpoint, reason } => reason,
        AutoStep::Failed { error: ConnectError::AutoConfig(a) } => a.reason,
        _ => arbitrary(),
    };
    assert(falls_back(auto, reason@, next));
}

/// After the probes, the endpoint that was reached fastest is dialed at the address of its probe,
/// of equally fast ones the one that discovery listed first; its certificate has to name its
/// host. The static endpoint comes next only if none was reached, or if the fastest is no endpoint.
pub proof fn law_fastest_endpoint_is_dialed(
    auto: AutoConfig,
    endpoints: Vec<String>,
    outcomes: Vec<ProbeOutcome>,
    next: AutoStep,
) -> (i: int)
    requires
        goes_on(auto, AutoStep::Probe { endpoints }, AutoEvent::Probes(outcomes), next),
    ensures
        (forall|j: int|
            0 <= j < outcomes@.len() ==> !(#[trigger] outcomes@[j] matches ProbeOutcome::Probed {
                result: Ok(_),
                ..
            })) ==> falls_back(
            auto,
            FallbackReasonView::AllProbesFailed(without_places(by_place(failures(outcomes@)))),
            next,
        ),
        (exists|j: int|
            0 <= j < outcomes@.len() && (#[trigger] outcomes@[j] matches ProbeOutcome::Probed {
                result: Ok(_),
                ..
            })) ==> {
            &&& 0 <= i < outcomes@.len()
            &&& outcomes@[i] matches ProbeOutcome::Probed { index, endpoint, result: Ok(found) }
            &&& forall|j: int|
                0 <= j < outcomes@.len() ==> (#[trigger] outcomes@[j] matches ProbeOutcome::Probed {
                    index: other,
                    result: Ok(reached),
                    ..
                } ==> found.1@ < reached.1@ || (found.1@ == reached.1@ && index <= other))
            &&& match endpoint_parts(endpoint@) {
                Ok(parts) => next matches AutoStep::DialDiscovered { best, host } && best
                    == (ProbeOk { endpoint, addr: found.0, latency: found.1 }) && host@ == parts.0,
                Err(e) => falls_back(auto, FallbackReasonView::InvalidResponse(e), next),
            }
        },
{
    let reached = reached_endpoints(outcomes@);
    if reached.len() > 0 {
        let k = choose|k: int| #[trigger] best_result(reached, k) && dials(auto, reached[k].1, next);
        let r: Result<ProbeOk, FallbackReason> = Ok(reached[k].1);
        law_any_reached_endpoint_counts(outcomes@, r)
    } else {
        law_none_reached(outcomes@);
        0
    }
}

/// A dial of the discovered endpoint that succeeds ends the connect with that endpoint, its
/// address and its latency; one that fails, however, leads to the static endpoint, with the
/// endpoint and the failure in words as the reason.
pub proof fn law_after_the_discovered_dial(
    auto: AutoConfig,
    best: ProbeOk,
    host: String,
    e: ConnectError,
    connected: AutoStep,
    failed: AutoStep,
)
    requires
        goes_on(
            auto,
            AutoStep::DialDiscovered { best, host },
            AutoEvent::Dialed(Ok(())),
            connected,
        ),
        goes_on(auto, AutoStep::DialDiscovered { best, host }, AutoEvent::Dialed(Err(e)), failed),
    ensures
        connected matches AutoStep::Connected {
            source: EndpointSource::Discovered { endpoint, addr, latency },
        } && endpoint == best.endpoint && addr == best.addr && latency == best.latency,
        falls_back(
            auto,
            FallbackReasonView::InitialConnectFailed {
                endpoint: best.endpoint@,
                error: e.text(),
            },
            failed,
        ),
{
}

/// A dial of the static endpoint that succeeds ends the connect with that endpoint and the reason
/// for it; one that fails ends it with the reason, the endpoint and its failure.
pub proof fn law_after_the_fallback_dial(
    auto: AutoConfig,
    endpoint: String,
    reason: FallbackReason,
    e: ConnectError,
    connected: AutoStep,
    failed: AutoStep,
)
    requires
        goes_on(
            auto,
            AutoStep::DialFallback { endpoint, reason },
            AutoEvent::Dialed(Ok(())),
            connected,
        ),
        goes_on(
            auto,
            AutoStep::DialFallback { endpoint, reason },
            AutoEvent::Dialed(Err(e)),
            failed,
        ),
    ensures
        connected matches AutoStep::Connected {
            source: EndpointSource::Fallback { endpoint: used, reason: why },
        } && used == endpoint && why == reason,
        failed matches AutoStep::Failed { error: ConnectError::AutoConfig(a) } && a.reason == reason
            && a.fallback_endpoint == Some(endpoint) && a.fallback_error == Some(Box::new(e)),
{
}

/// An automatic connect that has ended stays as it is, and so does one that gets an answer to
/// something else than it asked.
pub proof fn law_other_events_change_nothing(
    auto: AutoConfig,
    step: AutoStep,
    event: AutoEvent,
    next: AutoStep,
)
    requires
        goes_on(auto, step, event, next),
        match step {
            AutoStep::Discover => !(event is Discovery),
            AutoStep::Probe { .. } => !(event is Probes),
            AutoStep::DialDiscovered { .. } => !(event is Dialed),
            AutoStep::DialFallback { .. } => !(event is Dialed),
            AutoStep::Connected { .. } => true,
            AutoStep::Failed { .. } => true,
        },
    ensures
        next == step,
{
}

/// Where the outcomes came of probing the endpoints of the step, the endpoint that is dialed
/// next is one of them, at its place among them; and where every one of them was probed once
/// and none was reached, the reason to fall back lists them all, in order, each with the error
/// of its probe.
pub proof fn law_only_probed_endpoints_count(
    auto: AutoConfig,
    endpoints: Vec<String>,
    outcomes: Vec<ProbeOutcome>,
    next: AutoStep,
)
    requires
        probes_of(endpoints.deep_view(), outcomes@),
        goes_on(auto, AutoStep::Probe { endpoints }, AutoEvent::Probes(outcomes), next),
    ensures
        next matches AutoStep::DialDiscovered { best, .. } ==> exists|i: int|
            0 <= i < endpoints@.len() && (#[trigger] endpoints.deep_view()[i]) == best.endpoint@,
        all_probed(endpoints.deep_view(), outcomes@) && reached_endpoints(outcomes@).len() == 0
            ==> exists|list: Seq<(Seq<char>, Seq<char>)>| #[trigger]
            falls_back(auto, FallbackReasonView::AllProbesFailed(list), next) && list.len()
                == endpoints@.len() && forall|i: int|
                0 <= i < list.len() ==> (#[trigger] list[i]).0 == endpoints.deep_view()[i]
                    && failed_at(outcomes@, i, list[i]),
{
    let named = endpoints.deep_view();
    let reached = reached_endpoints(outcomes@);
    law_reached_endpoints(named, outcomes@);
    law_failures_in_order(named, outcomes@);
    if let AutoStep::DialDiscovered { best, host } = next {
        let i = choose|i: int|
            #[trigger] best_result(reached, i) && dials(auto, reached[i].1, next);
        assert(named[reached[i].0 as int] == best.endpoint@);
    }
}

/// A client that is connected to a discovered endpoint is connected to one that was reached,
/// at the address and with the latency of its probe, and no other probe was faster.
pub proof fn law_connects_to_lowest_latency(
    auto: AutoConfig,
    endpoints: Vec<String>,
    outcomes: Vec<ProbeOutcome>,
    dial: AutoStep,
    last: AutoStep,
)
    requires
        goes_on(auto, AutoStep::Probe { endpoints }, AutoEvent::Probes(outcomes), dial),
        dial is DialDiscovered,
        goes_on(auto, dial, AutoEvent::Dialed(Ok(())), last),
    ensures
        last matches AutoStep::Connected {
            source: EndpointSource::Discovered { endpoint, addr, latency },
        } && exists|i: int|
            0 <= i < reached_endpoints(outcomes@).len() && (#[trigger] reached_endpoints(
                outcomes@,
            )[i]).1 == (ProbeOk { endpoint, addr, latency }) && forall|j: int|
                0 <= j < reached_endpoints(outcomes@).len() ==> latency@ <= (
                #[trigger] reached_endpoints(outcomes@)[j]).1.latency@,
{
    let reached = reached_endpoints(outcomes@);
    let i = choose|i: int| #[trigger] best_result(reached, i) && dials(auto, reached[i].1, dial);
    assert(forall|j: int|
        0 <= j < reached.len() ==> !crate::probe::preferred(#[trigger] reached[j], reached[i]));
    assert(dial->best == reached[i].1);
}

} // verus!
