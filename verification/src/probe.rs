//! Judging the probes of discovered endpoints.
use crate::address::SocketAddr;
use crate::autoconfig::{FallbackReason, FallbackReasonView};
use crate::client::Lookup;
use crate::duration::Duration;
use vstd::prelude::*;

verus! {

broadcast use vstd::string::group_string_axioms;

// ---------------------------------------------------------------------------------------
// The addresses of one endpoint
// ---------------------------------------------------------------------------------------
/// Whether `r` is what a lookup comes to: the addresses that were found, or why they are not
/// known.
pub open spec fn addrs_known(lookup: Lookup, r: Result<Vec<SocketAddr>, String>) -> bool {
    match lookup {
        Lookup::TimedOut(limit) => r matches Err(m) && m@ == "dns lookup timed out after "@
            + limit@,
        Lookup::Failed(e) => r matches Err(m) && m@ == "dns: "@ + e@,
        Lookup::Found(addrs) => r == Ok::<_, String>(addrs),
    }
}

/// Every address that was found is probed, in the resolver's order, and a lookup without an
/// answer fails in words.
pub proof fn law_addrs_known(lookup: Lookup, r: Result<Vec<SocketAddr>, String>)
    requires
        addrs_known(lookup, r),
    ensures
        r is Ok <==> lookup is Found,
        r matches Ok(known) ==> (lookup matches Lookup::Found(addrs) && known@ == addrs@),
        r matches Err(m) ==> match lookup {
            Lookup::TimedOut(limit) => m@ == "dns lookup timed out after "@ + limit@,
            Lookup::Failed(e) => m@ == "dns: "@ + e@,
            Lookup::Found(_) => false,
        },
{
}

/// The addresses to probe for an endpoint, or why they are not known.
pub fn probe_lookup(lookup: Lookup) -> (r: Result<Vec<SocketAddr>, String>)
    ensures
        addrs_known(lookup, r),
{
    match lookup {
        Lookup::TimedOut(limit) => Err(
            "dns lookup timed out after ".to_owned().concat(limit.as_str()),
        ),
        Lookup::Failed(e) => Err("dns: ".to_owned().concat(e.as_str())),
        Lookup::Found(addrs) => Ok(addrs),
    }
}

/// What came of timing a handshake with one address.
#[derive(Debug)]
pub enum AddrResult {
    /// It took this long.
    Latency(Duration),
    /// It failed.
    Failed(String),
    /// It was not done in the time given, which is given in words.
    TimedOut(String),
}

/// What came of probing one address of an endpoint.
#[derive(Debug)]
pub enum AddrOutcome {
    /// The probe was lost.
    Lost,
    /// The probe was made. `index` is the address's place among the endpoint's addresses,
    /// `label` the address in words.
    Probed { index: usize, addr: SocketAddr, label: String, result: AddrResult },
}

impl AddrOutcome {
    /// Whether the address was reached.
    pub open spec fn reached(self) -> bool {
        self matches AddrOutcome::Probed { result: AddrResult::Latency(_), .. }
    }

    /// The address that was reached, and how long it took.
    pub open spec fn found(self) -> (SocketAddr, Duration)
        recommends
            self.reached(),
    {
        match self {
            AddrOutcome::Probed { addr, result: AddrResult::Latency(latency), .. } => (
                addr,
                latency,
            ),
            _ => arbitrary(),
        }
    }

    /// Whether the probe was made and failed.
    pub open spec fn failed(self) -> bool {
        self matches AddrOutcome::Probed { result, .. } && !(result is Latency)
    }

    /// How the probe failed, in words.
    pub open spec fn failure(self) -> Seq<char> {
        match self {
            AddrOutcome::Probed { label, result: AddrResult::Failed(e), .. } => label@ + ": "@ + e@,
            AddrOutcome::Probed { label, result: AddrResult::TimedOut(limit), .. } => label@
                + ": "@ + ("probe timed out after "@ + limit@),
            _ => Seq::empty(),
        }
    }

    /// The address's place among the endpoint's addresses.
    pub open spec fn place(self) -> int {
        match self {
            AddrOutcome::Probed { index, .. } => index as int,
            AddrOutcome::Lost => 0,
        }
    }
}

/// Whether the `i`th outcome is the first of those that were reached fastest.
pub open spec fn fastest(outcomes: Seq<AddrOutcome>, i: int) -> bool {
    &&& 0 <= i < outcomes.len()
    &&& outcomes[i].reached()
    &&& forall|j: int|
        0 <= j < outcomes.len() && (#[trigger] outcomes[j]).reached() ==> {
            &&& outcomes[i].found().1@ <= outcomes[j].found().1@
            &&& j < i ==> outcomes[i].found().1@ < outcomes[j].found().1@
        }
}

/// Whether the `i`th outcome is the failure of the address that comes first.
pub open spec fn first_failure(outcomes: Seq<AddrOutcome>, i: int) -> bool {
    &&& 0 <= i < outcomes.len()
    &&& outcomes[i].failed()
    &&& forall|j: int|
        0 <= j < outcomes.len() && (#[trigger] outcomes[j]).failed() ==> {
            &&& outcomes[i].place() <= outcomes[j].place()
            &&& j < i ==> outcomes[i].place() < outcomes[j].place()
        }
}

/// Whether `r` is what the probes of an endpoint's addresses come to: the fastest success, or on
/// total failure the first address's error.
pub open spec fn addrs_judged(
    outcomes: Seq<AddrOutcome>,
    r: Result<(SocketAddr, Duration), String>,
) -> bool {
    match r {
        Ok(found) => exists|i: int| #[trigger]
            fastest(outcomes, i) && outcomes[i].found() == found,
        Err(e) => {
            &&& forall|i: int| 0 <= i < outcomes.len() ==> !(#[trigger] outcomes[i]).reached()
            &&& if exists|i: int| 0 <= i < outcomes.len() && (#[trigger] outcomes[i]).failed() {
                exists|i: int| #[trigger]
                    first_failure(outcomes, i) && e@ == outcomes[i].failure()
            } else if outcomes.len() == 0 {
                e@ == "no addresses"@
            } else {
                e@ == "probe task failed"@
            }
        },
    }
}

/// Judges the probes of all addresses of an endpoint, in the order in which they ended: the
/// fastest success. On total failure, the first address's error.
pub fn probe_addrs(outcomes: &Vec<AddrOutcome>) -> (r: Result<(SocketAddr, Duration), String>)
    ensures
        addrs_judged(outcomes@, r),
{
    if outcomes.len() == 0 {
        return Err("no addresses".to_owned());
    }
    let mut best: Option<(SocketAddr, Duration)> = None;
    let mut first_err: Option<(usize, String)> = None;
    let ghost mut best_at: int = 0;
    let ghost mut first_at: int = 0;
    for k in 0..outcomes.len()
        invariant
            match best {
                Some(found) => fastest(outcomes@.take(k as int), best_at)
                    && outcomes@[best_at].found() == found,
                None => forall|i: int| 0 <= i < k ==> !(#[trigger] outcomes@[i]).reached(),
            },
            match first_err {
                Some((index, e)) => first_failure(outcomes@.take(k as int), first_at)
                    && outcomes@[first_at].place() == index && outcomes@[first_at].failure() == e@,
                None => forall|i: int| 0 <= i < k ==> !(#[trigger] outcomes@[i]).failed(),
            },
    {
        let ghost seen = outcomes@.take(k as int);
        let ghost now = outcomes@.take(k + 1);
        assert(forall|i: int| 0 <= i < k ==> seen[i] == outcomes@[i] && now[i] == outcomes@[i]);
        assert(now[k as int] == outcomes@[k as int]);
        match &outcomes[k] {
            AddrOutcome::Lost => {},
            AddrOutcome::Probed { index, addr, label, result } => {
                let failure: Option<String> = match result {
                    AddrResult::Latency(latency) => {
                        let better = match &best {
                            None => true,
                            Some((_, b)) => latency.shorter_than(*b),
                        };
                        if better {
                            best = Some((*addr, *latency));
                            proof {
                                best_at = k as int;
                            }
                        }
                        None
                    },
                    AddrResult::Failed(e) => Some(label.clone().concat(": ").concat(e.as_str())),
                    AddrResult::TimedOut(limit) => Some(
                        label.clone().concat(": ").concat(
                            "probe timed out after ".to_owned().concat(limit.as_str()).as_str(),
                        ),
                    ),
                };
                if let Some(e) = failure {
                    let earlier = match &first_err {
                        None => true,
                        Some((i, _)) => *index < *i,
                    };
                    if earlier {
                        first_err = Some((*index, e));
                        proof {
                            first_at = k as int;
                        }
                    }
                }
            },
        }
    }
    assert(outcomes@.take(outcomes@.len() as int) =~= outcomes@);
    match best {
        Some(found) => Ok(found),
        None => match first_err {
            Some((_, e)) => Err(e),
            None => Err("probe task failed".to_owned()),
        },
    }
}

// ---------------------------------------------------------------------------------------
// All endpoints
// ---------------------------------------------------------------------------------------
/// An endpoint that was reached.
#[derive(Debug, Clone)]
pub struct ProbeOk {
    pub endpoint: String,
    pub addr: SocketAddr,
    pub latency: Duration,
}

/// Whether `a` is preferred to `b`: a lower latency, or else an earlier place in the list
/// that discovery gave.
pub open spec fn preferred(a: (usize, ProbeOk), b: (usize, ProbeOk)) -> bool {
    a.1.latency@ < b.1.latency@ || (a.1.latency@ == b.1.latency@ && a.0 < b.0)
}

/// Whether the `i`th of `results` is the first of those to which no other is preferred.
pub open spec fn best_result(results: Seq<(usize, ProbeOk)>, i: int) -> bool {
    &&& 0 <= i < results.len()
    &&& forall|j: int|
        0 <= j < results.len() ==> {
            &&& !preferred(#[trigger] results[j], results[i])
            &&& j < i ==> preferred(results[i], results[j])
        }
}

/// Index into `results` of the lowest latency; ties go to the earlier discovery index.
pub fn select_best(results: &Vec<(usize, ProbeOk)>) -> (best: Option<usize>)
    ensures
        match best {
            Some(i) => best_result(results@, i as int),
            None => results@.len() == 0,
        },
{
    if results.len() == 0 {
        return None;
    }
    let mut best: usize = 0;
    for k in 1..results.len()
        invariant
            best < k,
            1 <= k <= results@.len(),
            forall|j: int|
                0 <= j < k ==> {
                    &&& !preferred(#[trigger] results@[j], results@[best as int])
                    &&& j < best ==> preferred(results@[best as int], results@[j])
                },
    {
        let lower = results[k].1.latency.shorter_than(results[best].1.latency);
        let higher = results[best].1.latency.shorter_than(results[k].1.latency);
        if lower || (!higher && results[k].0 < results[best].0) {
            best = k;
        }
    }
    Some(best)
}

/// What came of probing one endpoint.
#[derive(Debug)]
pub enum ProbeOutcome {
    /// The probe was lost, for this reason.
    Lost(String),
    /// The probe was made. `index` is the endpoint's place in the list that discovery gave.
    Probed { index: usize, endpoint: String, result: Result<(SocketAddr, Duration), String> },
}

/// The endpoints that were reached, each with its place, in the order of `outcomes`.
pub open spec fn reached_endpoints(outcomes: Seq<ProbeOutcome>) -> Seq<(usize, ProbeOk)>
    decreases outcomes.len(),
{
    if outcomes.len() == 0 {
        Seq::empty()
    } else {
        let before = reached_endpoints(outcomes.drop_last());
        match outcomes.last() {
            ProbeOutcome::Probed { index, endpoint, result: Ok((addr, latency)) } => before.push(
                (index, ProbeOk { endpoint, addr, latency }),
            ),
            _ => before,
        }
    }
}

/// A failed probe: the endpoint's place, the endpoint and the error.
pub type Failure = (usize, Seq<char>, Seq<char>);

/// The probes that failed, in the order of `outcomes`. One that was lost has no place, so
/// it comes behind every other.
pub open spec fn failures(outcomes: Seq<ProbeOutcome>) -> Seq<Failure>
    decreases outcomes.len(),
{
    if outcomes.len() == 0 {
        Seq::empty()
    } else {
        let before = failures(outcomes.drop_last());
        match outcomes.last() {
            ProbeOutcome::Lost(e) => before.push((usize::MAX, "<probe task>"@, e@)),
            ProbeOutcome::Probed { index, endpoint, result: Err(e) } => before.push(
                (index, endpoint@, e@),
            ),
            _ => before,
        }
    }
}

/// `sorted` with `f` behind everything that has its place or an earlier one.
pub open spec fn insert_by_place(sorted: Seq<Failure>, f: Failure) -> Seq<Failure>
    decreases sorted.len(),
{
    if sorted.len() == 0 || sorted.last().0 <= f.0 {
        sorted.push(f)
    } else {
        insert_by_place(sorted.drop_last(), f).push(sorted.last())
    }
}

/// `list` ordered by place.
pub open spec fn by_place(list: Seq<Failure>) -> Seq<Failure>
    decreases list.len(),
{
    if list.len() == 0 {
        Seq::empty()
    } else {
        insert_by_place(by_place(list.drop_last()), list.last())
    }
}

/// The failures in `list` that have this place, in order.
pub open spec fn at_place(list: Seq<Failure>, place: usize) -> Seq<Failure> {
    list.filter(|f: Failure| f.0 == place)
}

/// The endpoints and the errors of failures, without the places.
pub open spec fn without_places(list: Seq<Failure>) -> Seq<(Seq<char>, Seq<char>)> {
    list.map_values(|f: Failure| (f.1, f.2))
}

fn insert_failure(sorted: &mut Vec<(usize, String, String)>, f: (usize, String, String))
    ensures
        final(sorted).deep_view() == insert_by_place(old(sorted).deep_view(), f.deep_view()),
{
    let ghost before = sorted.deep_view();
    let mut at: usize = sorted.len();
    assert(before.take(at as int) =~= before);
    assert(insert_by_place(before.take(at as int), f.deep_view()) + before.skip(at as int)
        =~= insert_by_place(before, f.deep_view()));
    while at > 0 && sorted[at - 1].0 > f.0
        invariant
            *sorted == *old(sorted),
            before == sorted.deep_view(),
            at <= sorted@.len(),
            insert_by_place(before.take(at as int), f.deep_view()) + before.skip(at as int)
                == insert_by_place(before, f.deep_view()),
        decreases at,
    {
        proof {
            let head = before.take(at as int);
            assert(head.last() == sorted@[at - 1].deep_view());
            assert(head.drop_last() =~= before.take(at - 1));
            assert(before.skip(at - 1) =~= seq![head.last()] + before.skip(at as int));
            assert(insert_by_place(before.take(at - 1), f.deep_view()) + before.skip(at - 1)
                =~= insert_by_place(head, f.deep_view()) + before.skip(at as int));
        }
        at -= 1;
    }
    proof {
        if at > 0 {
            assert(before.take(at as int).last() == sorted@[at - 1].deep_view());
        }
    }
    sorted.insert(at, f);
    assert(sorted.deep_view() =~= before.take(at as int).push(f.deep_view()) + before.skip(
        at as int,
    ));
}

/// Whether `r` is what the probes of all endpoints come to: the endpoint with the lowest latency,
/// or every failure in the order of the list that discovery gave.
pub open spec fn endpoints_judged(
    outcomes: Seq<ProbeOutcome>,
    r: Result<ProbeOk, FallbackReason>,
) -> bool {
    match r {
        Ok(best) => exists|i: int| #[trigger]
            best_result(reached_endpoints(outcomes), i) && best == reached_endpoints(
                outcomes,
            )[i].1,
        Err(reason) => reached_endpoints(outcomes).len() == 0 && reason@
            == FallbackReasonView::AllProbesFailed(without_places(by_place(failures(outcomes)))),
    }
}

/// Judges the probes of all endpoints, in the order in which they ended: the endpoint with
/// the lowest latency, or every failure in the order of the list that discovery gave.
pub fn probe_all(outcomes: Vec<ProbeOutcome>) -> (r: Result<ProbeOk, FallbackReason>)
    ensures
        endpoints_judged(outcomes@, r),
{
    let ghost all = outcomes@;
    let mut results: Vec<(usize, ProbeOk)> = Vec::new();
    let mut failed: Vec<(usize, String, String)> = Vec::new();
    assert(failed.deep_view() =~= by_place(failures(all.take(0))));
    for outcome in it: outcomes
        invariant
            it.seq() == all,
            results@ == reached_endpoints(all.take(it.index())),
            failed.deep_view() == by_place(failures(all.take(it.index()))),
    {
        proof {
            let k = it.index();
            assert(all.take(k + 1).drop_last() =~= all.take(k));
            assert(all.take(k + 1).last() == outcome);
            reveal_strlit("<probe task>");
        }
        match outcome {
            ProbeOutcome::Lost(e) => {
                let ghost list = failures(all.take(it.index()));
                let f = (usize::MAX, "<probe task>".to_owned(), e);
                assert(list.push(f.deep_view()).drop_last() =~= list);
                insert_failure(&mut failed, f);
            },
            ProbeOutcome::Probed { index, endpoint, result } => match result {
                Ok((addr, latency)) => {
                    results.push((index, ProbeOk { endpoint, addr, latency }));
                },
                Err(error) => {
                    let ghost list = failures(all.take(it.index()));
                    let f = (index, endpoint, error);
                    assert(list.push(f.deep_view()).drop_last() =~= list);
                    insert_failure(&mut failed, f);
                },
            },
        }
    }
    assert(all.take(all.len() as int) =~= all);
    match select_best(&results) {
        Some(best) => {
            let ghost reached = results@;
            let (_, ok) = results.swap_remove(best);
            assert(ok == reached[best as int].1);
            Ok(ok)
        },
        None => {
            let ghost sorted = failed.deep_view();
            let mut list: Vec<(String, String)> = Vec::new();
            for f in it: failed
                invariant
                    it.seq() == failed@,
                    sorted == failed.deep_view(),
                    list.deep_view() == without_places(sorted.take(it.index())),
            {
                let ghost before = list.deep_view();
                let (_, endpoint, error) = f;
                list.push((endpoint, error));
                proof {
                    let k = it.index();
                    assert(sorted.take(k + 1) =~= sorted.take(k).push(sorted[k]));
                    assert(list.deep_view() =~= before.push((endpoint@, error@)));
                    assert(without_places(sorted.take(k + 1)) =~= list.deep_view());
                }
            }
            assert(sorted.take(sorted.len() as int) =~= sorted);
            Err(FallbackReason::AllProbesFailed(list))
        },
    }
}

/// Ordering by place is a stable sort: places do not decrease, and of the failures with one
/// place, all are there, in the order in which they came.
pub proof fn law_by_place(list: Seq<Failure>)
    ensures
        by_place(list).len() == list.len(),
        forall|i: int, j: int|
            0 <= i <= j < list.len() ==> (#[trigger] by_place(list)[i]).0 <= (
            #[trigger] by_place(list)[j]).0,
        forall|place: usize| #[trigger]
            at_place(by_place(list), place) == at_place(list, place),
    decreases list.len(),
{
    reveal(Seq::filter);
    if list.len() > 0 {
        let rest = list.drop_last();
        law_by_place(rest);
        lemma_insert_by_place(by_place(rest), list.last());
        assert forall|place: usize| #[trigger]
            at_place(by_place(list), place) == at_place(list, place) by {
            assert(at_place(by_place(rest), place) == at_place(rest, place));
            assert(at_place(insert_by_place(by_place(rest), list.last()), place) == at_place(
                by_place(rest).push(list.last()),
                place,
            ));
            assert(by_place(rest).push(list.last()).drop_last() =~= by_place(rest));
        }
    }
}

proof fn lemma_insert_by_place(sorted: Seq<Failure>, f: Failure)
    requires
        forall|i: int, j: int|
            0 <= i <= j < sorted.len() ==> (#[trigger] sorted[i]).0 <= (#[trigger] sorted[j]).0,
    ensures
        insert_by_place(sorted, f).len() == sorted.len() + 1,
        forall|i: int, j: int|
            0 <= i <= j < sorted.len() + 1 ==> (#[trigger] insert_by_place(sorted, f)[i]).0 <= (
            #[trigger] insert_by_place(sorted, f)[j]).0,
        forall|i: int|
            0 <= i < sorted.len() + 1 ==> (#[trigger] insert_by_place(sorted, f)[i]).0 <= (
            if sorted.len() > 0 && sorted.last().0 > f.0 {
                sorted.last().0
            } else {
                f.0
            }),
        forall|place: usize| #[trigger]
            at_place(insert_by_place(sorted, f), place) == at_place(sorted.push(f), place),
    decreases sorted.len(),
{
    reveal(Seq::filter);
    if sorted.len() > 0 && sorted.last().0 > f.0 {
        let rest = sorted.drop_last();
        lemma_insert_by_place(rest, f);
        let out = insert_by_place(sorted, f);
        assert forall|i: int| 0 <= i < out.len() implies (#[trigger] out[i]).0
            <= sorted.last().0 by {
            if i < out.len() - 1 {
                assert(out[i] == insert_by_place(rest, f)[i]);
                if rest.len() > 0 {
                    assert(sorted[rest.len() - 1].0 <= sorted[sorted.len() - 1].0);
                }
            }
        }
        assert forall|i: int, j: int| 0 <= i <= j < out.len() implies (#[trigger] out[i]).0 <= (
        #[trigger] out[j]).0 by {
            if j < out.len() - 1 {
                assert(out[i] == insert_by_place(rest, f)[i]);
                assert(out[j] == insert_by_place(rest, f)[j]);
            }
        }
        assert forall|place: usize| #[trigger]
            at_place(out, place) == at_place(sorted.push(f), place) by {
            assert(at_place(insert_by_place(rest, f), place) == at_place(rest.push(f), place));
            let at = |g: Failure| g.0 == place;
            assert(sorted =~= rest.push(sorted.last()));
            insert_by_place(rest, f).lemma_filter_push(sorted.last(), at);
            rest.lemma_filter_push(sorted.last(), at);
            rest.lemma_filter_push(f, at);
            sorted.lemma_filter_push(f, at);
        }
    }
}

/// Every probe is accounted for: it reached its endpoint or it failed. Where all failed, the
/// list of failures names every one.
pub proof fn law_every_probe_counts(outcomes: Seq<ProbeOutcome>)
    ensures
        reached_endpoints(outcomes).len() + failures(outcomes).len() == outcomes.len(),
        without_places(by_place(failures(outcomes))).len() == failures(outcomes).len(),
    decreases outcomes.len(),
{
    law_by_place(failures(outcomes));
    if outcomes.len() > 0 {
        law_every_probe_counts(outcomes.drop_last());
    }
}

/// Whether `outcomes` came of probing `endpoints`: every probe that was not lost was of the
/// endpoint at its place.
pub open spec fn probes_of(endpoints: Seq<Seq<char>>, outcomes: Seq<ProbeOutcome>) -> bool {
    forall|i: int|
        0 <= i < outcomes.len() ==> match #[trigger] outcomes[i] {
            ProbeOutcome::Lost(_) => true,
            ProbeOutcome::Probed { index, endpoint, .. } => index < endpoints.len() && endpoint@
                == endpoints[index as int],
        }
}

/// Whether `outcomes` came of probing `endpoints`, each of them once, with no probe lost.
pub open spec fn all_probed(endpoints: Seq<Seq<char>>, outcomes: Seq<ProbeOutcome>) -> bool {
    &&& probes_of(endpoints, outcomes)
    &&& outcomes.len() == endpoints.len()
    &&& forall|i: int| 0 <= i < outcomes.len() ==> (#[trigger] outcomes[i]) is Probed
    &&& forall|i: int, j: int|
        0 <= i < j < outcomes.len() ==> (#[trigger] outcomes[i])->index != (
        #[trigger] outcomes[j])->index
}

/// Every endpoint that was reached is the one of `endpoints` at its place.
pub proof fn law_reached_endpoints(endpoints: Seq<Seq<char>>, outcomes: Seq<ProbeOutcome>)
    requires
        probes_of(endpoints, outcomes),
    ensures
        forall|i: int|
            0 <= i < reached_endpoints(outcomes).len() ==> {
                &&& (#[trigger] reached_endpoints(outcomes)[i]).0 < endpoints.len()
                &&& reached_endpoints(outcomes)[i].1.endpoint@
                    == endpoints[reached_endpoints(outcomes)[i].0 as int]
            },
    decreases outcomes.len(),
{
    if outcomes.len() > 0 {
        let rest = outcomes.drop_last();
        assert forall|i: int| 0 <= i < rest.len() implies match #[trigger] rest[i] {
            ProbeOutcome::Lost(_) => true,
            ProbeOutcome::Probed { index, endpoint, .. } => index < endpoints.len() && endpoint@
                == endpoints[index as int],
        } by {
            assert(rest[i] == outcomes[i]);
        }
        law_reached_endpoints(endpoints, rest);
        let last = outcomes[outcomes.len() - 1];
        let reached = reached_endpoints(outcomes);
        assert forall|i: int| 0 <= i < reached.len() implies {
            &&& (#[trigger] reached[i]).0 < endpoints.len()
            &&& reached[i].1.endpoint@ == endpoints[reached[i].0 as int]
        } by {
            if i < reached_endpoints(rest).len() {
                assert(reached[i] == reached_endpoints(rest)[i]);
            }
        }
    }
}

/// Whether `f` is the failure of the endpoint at its place, or of a probe that was lost.
pub open spec fn failure_of(endpoints: Seq<Seq<char>>, f: Failure) -> bool {
    ||| f.0 == usize::MAX && f.1 == "<probe task>"@
    ||| f.0 < endpoints.len() && f.1 == endpoints[f.0 as int]
}

/// Whether `entry` is the endpoint and the error of a failed probe at this place.
pub open spec fn failed_at(
    outcomes: Seq<ProbeOutcome>,
    place: int,
    entry: (Seq<char>, Seq<char>),
) -> bool {
    exists|j: int|
        0 <= j < outcomes.len() && (#[trigger] outcomes[j] matches ProbeOutcome::Probed {
            index,
            endpoint,
            result: Err(e),
        } && index == place && entry == (endpoint@, e@))
}

/// Failures are listed in the order of the endpoints, each under the endpoint at its place, and
/// behind them the probes that were lost. Where every endpoint was probed once and none was
/// reached, the list names every endpoint, in order, with the error of its probe.
pub proof fn law_failures_in_order(endpoints: Seq<Seq<char>>, outcomes: Seq<ProbeOutcome>)
    requires
        probes_of(endpoints, outcomes),
    ensures
        forall|i: int|
            0 <= i < failures(outcomes).len() ==> failure_of(
                endpoints,
                #[trigger] by_place(failures(outcomes))[i],
            ),
        forall|i: int, j: int|
            0 <= i <= j < failures(outcomes).len() ==> (#[trigger] by_place(failures(outcomes))[i]).0
                <= (#[trigger] by_place(failures(outcomes))[j]).0,
        all_probed(endpoints, outcomes) && reached_endpoints(outcomes).len() == 0 ==> {
            &&& without_places(by_place(failures(outcomes))).len() == endpoints.len()
            &&& forall|i: int|
                0 <= i < endpoints.len() ==> {
                    let entry = #[trigger] without_places(by_place(failures(outcomes)))[i];
                    entry.0 == endpoints[i] && failed_at(outcomes, i, entry)
                }
        },
{
    let list = failures(outcomes);
    let sorted = by_place(list);
    law_by_place(list);
    lemma_failures_of(endpoints, outcomes);
    assert forall|i: int| 0 <= i < list.len() implies failure_of(
        endpoints,
        #[trigger] sorted[i],
    ) by {
        let k = lemma_by_place_member(list, i);
    }
    if all_probed(endpoints, outcomes) && reached_endpoints(outcomes).len() == 0 {
        lemma_all_failed(outcomes);
        assert forall|i: int, j: int| 0 <= i < j < list.len() implies (#[trigger] list[i]).0 != (
        #[trigger] list[j]).0 by {
            assert(outcomes[i]->index != outcomes[j]->index);
        }
        lemma_by_place_strict(list);
        assert forall|i: int| 0 <= i < sorted.len() implies (#[trigger] sorted[i]).0
            < endpoints.len() by {
            let k = lemma_by_place_member(list, i);
            assert(outcomes[k] is Probed);
        }
        assert forall|i: int| 0 <= i < endpoints.len() implies {
            let entry = #[trigger] without_places(sorted)[i];
            entry.0 == endpoints[i] && failed_at(outcomes, i, entry)
        } by {
            lemma_at_least(sorted, i);
            lemma_at_most(sorted, i, endpoints.len());
            let k = lemma_by_place_member(list, i);
            assert(outcomes[k] is Probed);
        }
    }
}

proof fn lemma_failures_of(endpoints: Seq<Seq<char>>, outcomes: Seq<ProbeOutcome>)
    requires
        probes_of(endpoints, outcomes),
    ensures
        forall|i: int|
            0 <= i < failures(outcomes).len() ==> failure_of(
                endpoints,
                #[trigger] failures(outcomes)[i],
            ),
    decreases outcomes.len(),
{
    if outcomes.len() > 0 {
        let rest = outcomes.drop_last();
        assert(forall|i: int| 0 <= i < rest.len() ==> #[trigger] rest[i] == outcomes[i]);
        lemma_failures_of(endpoints, rest);
        let last = outcomes[outcomes.len() - 1];
        let list = failures(outcomes);
        assert forall|i: int| 0 <= i < list.len() implies failure_of(
            endpoints,
            #[trigger] list[i],
        ) by {
            if i < failures(rest).len() {
                assert(list[i] == failures(rest)[i]);
            }
        }
    }
}

proof fn lemma_insert_member(sorted: Seq<Failure>, f: Failure, i: int) -> (k: int)
    requires
        0 <= i < insert_by_place(sorted, f).len(),
    ensures
        -1 <= k < sorted.len(),
        insert_by_place(sorted, f)[i] == if k < 0 {
            f
        } else {
            sorted[k]
        },
    decreases sorted.len(),
{
    if sorted.len() == 0 || sorted.last().0 <= f.0 {
        if i < sorted.len() {
            i
        } else {
            -1
        }
    } else if i < insert_by_place(sorted.drop_last(), f).len() {
        lemma_insert_member(sorted.drop_last(), f, i)
    } else {
        sorted.len() - 1
    }
}

proof fn lemma_by_place_member(list: Seq<Failure>, i: int) -> (k: int)
    requires
        0 <= i < by_place(list).len(),
    ensures
        0 <= k < list.len(),
        by_place(list)[i] == list[k],
    decreases list.len(),
{
    let rest = list.drop_last();
    let k = lemma_insert_member(by_place(rest), list.last(), i);
    if k < 0 {
        list.len() - 1
    } else {
        lemma_by_place_member(rest, k)
    }
}

proof fn lemma_all_failed(outcomes: Seq<ProbeOutcome>)
    requires
        reached_endpoints(outcomes).len() == 0,
        forall|i: int| 0 <= i < outcomes.len() ==> (#[trigger] outcomes[i]) is Probed,
    ensures
        failures(outcomes).len() == outcomes.len(),
        forall|i: int|
            0 <= i < outcomes.len() ==> {
                &&& (#[trigger] failures(outcomes)[i]).0 == outcomes[i]->index
                &&& failures(outcomes)[i].1 == outcomes[i]->endpoint@
                &&& outcomes[i]->result matches Err(e) && failures(outcomes)[i].2 == e@
            },
    decreases outcomes.len(),
{
    if outcomes.len() > 0 {
        let rest = outcomes.drop_last();
        assert(outcomes[outcomes.len() - 1] is Probed);
        assert(forall|i: int| 0 <= i < rest.len() ==> #[trigger] rest[i] == outcomes[i]);
        lemma_all_failed(rest);
        assert forall|i: int| 0 <= i < outcomes.len() implies {
            &&& (#[trigger] failures(outcomes)[i]).0 == outcomes[i]->index
            &&& failures(outcomes)[i].1 == outcomes[i]->endpoint@
            &&& outcomes[i]->result matches Err(e) && failures(outcomes)[i].2 == e@
        } by {
            if i < rest.len() {
                assert(failures(outcomes)[i] == failures(rest)[i]);
            }
        }
    }
}

proof fn lemma_by_place_strict(list: Seq<Failure>)
    requires
        forall|i: int, j: int|
            0 <= i < j < list.len() ==> (#[trigger] list[i]).0 != (#[trigger] list[j]).0,
    ensures
        forall|i: int, j: int|
            0 <= i < j < by_place(list).len() ==> (#[trigger] by_place(list)[i]).0 < (
            #[trigger] by_place(list)[j]).0,
    decreases list.len(),
{
    if list.len() > 0 {
        let rest = list.drop_last();
        assert(forall|i: int| 0 <= i < rest.len() ==> #[trigger] rest[i] == list[i]);
        lemma_by_place_strict(rest);
        let sorted = by_place(rest);
        assert forall|i: int| 0 <= i < sorted.len() implies (#[trigger] sorted[i]).0
            != list.last().0 by {
            let k = lemma_by_place_member(rest, i);
            assert(list[k].0 != list[list.len() - 1].0);
        }
        lemma_insert_strict(sorted, list.last());
    }
}

proof fn lemma_insert_strict(sorted: Seq<Failure>, f: Failure)
    requires
        forall|i: int, j: int|
            0 <= i < j < sorted.len() ==> (#[trigger] sorted[i]).0 < (#[trigger] sorted[j]).0,
        forall|i: int| 0 <= i < sorted.len() ==> (#[trigger] sorted[i]).0 != f.0,
    ensures
        forall|i: int, j: int|
            0 <= i < j < insert_by_place(sorted, f).len() ==> (#[trigger] insert_by_place(
                sorted,
                f,
            )[i]).0 < (#[trigger] insert_by_place(sorted, f)[j]).0,
    decreases sorted.len(),
{
    let out = insert_by_place(sorted, f);
    if sorted.len() > 0 && sorted.last().0 > f.0 {
        let rest = sorted.drop_last();
        assert(forall|i: int| 0 <= i < rest.len() ==> #[trigger] rest[i] == sorted[i]);
        lemma_insert_strict(rest, f);
        let inner = insert_by_place(rest, f);
        assert forall|i: int, j: int| 0 <= i < j < out.len() implies (#[trigger] out[i]).0 < (
        #[trigger] out[j]).0 by {
            assert(out[i] == inner[i]);
            if j < inner.len() {
                assert(out[j] == inner[j]);
            } else {
                let k = lemma_insert_member(rest, f, i);
                if k >= 0 {
                    assert(sorted[k].0 < sorted[sorted.len() - 1].0);
                }
            }
        }
    } else {
        assert forall|i: int, j: int| 0 <= i < j < out.len() implies (#[trigger] out[i]).0 < (
        #[trigger] out[j]).0 by {
            if j == sorted.len() {
                assert(sorted[i].0 <= sorted[sorted.len() - 1].0);
                assert(sorted[sorted.len() - 1].0 != f.0);
            }
        }
    }
}

proof fn lemma_at_least(sorted: Seq<Failure>, i: int)
    requires
        forall|a: int, b: int|
            0 <= a < b < sorted.len() ==> (#[trigger] sorted[a]).0 < (#[trigger] sorted[b]).0,
        0 <= i < sorted.len(),
    ensures
        sorted[i].0 >= i,
    decreases i,
{
    if i > 0 {
        lemma_at_least(sorted, i - 1);
        assert(sorted[i - 1].0 < sorted[i].0);
    }
}

proof fn lemma_at_most(sorted: Seq<Failure>, i: int, bound: nat)
    requires
        forall|a: int, b: int|
            0 <= a < b < sorted.len() ==> (#[trigger] sorted[a]).0 < (#[trigger] sorted[b]).0,
        forall|a: int| 0 <= a < sorted.len() ==> (#[trigger] sorted[a]).0 < bound,
        sorted.len() == bound,
        0 <= i < sorted.len(),
    ensures
        sorted[i].0 <= i,
    decreases sorted.len() - i,
{
    if i < sorted.len() - 1 {
        lemma_at_most(sorted, i + 1, bound);
        assert(sorted[i].0 < sorted[i + 1].0);
    }
}

/// The order in which the probes of an endpoint's addresses end has no say in the latency
/// that the endpoint gets.
pub proof fn law_latency_ignores_order(a: Seq<AddrOutcome>, b: Seq<AddrOutcome>, i: int, j: int)
    requires
        a.to_multiset() == b.to_multiset(),
        fastest(a, i),
        fastest(b, j),
    ensures
        a[i].found().1@ == b[j].found().1@,
{
    let k = lemma_same_members(a, b, i);
    let l = lemma_same_members(b, a, j);
}

/// The order in which the probes of an endpoint's addresses end has no say in the error that
/// the endpoint gets.
pub proof fn law_error_ignores_order(a: Seq<AddrOutcome>, b: Seq<AddrOutcome>, i: int, j: int)
    requires
        a.to_multiset() == b.to_multiset(),
        forall|k: int, l: int|
            0 <= k < l < a.len() && (#[trigger] a[k]).failed() && (#[trigger] a[l]).failed()
                ==> a[k].place() != a[l].place(),
        first_failure(a, i),
        first_failure(b, j),
    ensures
        a[i] == b[j],
{
    let k = lemma_same_members(a, b, i);
    let l = lemma_same_members(b, a, j);
    assert(a[l].place() == a[i].place());
}

/// The order in which the probes of the endpoints end has no say in which endpoint is chosen.
pub proof fn law_choice_ignores_order(
    a: Seq<(usize, ProbeOk)>,
    b: Seq<(usize, ProbeOk)>,
    i: int,
    j: int,
)
    requires
        a.to_multiset() == b.to_multiset(),
        forall|k: int, l: int|
            0 <= k < l < a.len() ==> (#[trigger] a[k]).0 != (#[trigger] a[l]).0,
        best_result(a, i),
        best_result(b, j),
    ensures
        a[i] == b[j],
{
    let k = lemma_same_members(a, b, i);
    let l = lemma_same_members(b, a, j);
    assert(!preferred(b[k], b[j]));
    assert(!preferred(a[l], a[i]));
}

proof fn lemma_same_members<T>(a: Seq<T>, b: Seq<T>, i: int) -> (j: int)
    requires
        a.to_multiset() == b.to_multiset(),
        0 <= i < a.len(),
    ensures
        0 <= j < b.len(),
        b[j] == a[i],
{
    vstd::seq_lib::to_multiset_contains(a, a[i]);
    vstd::seq_lib::to_multiset_contains(b, a[i]);
    assert(a.contains(a[i]));
    assert(b.contains(a[i]));
    choose|j: int| 0 <= j < b.len() && b[j] == a[i]
}

/// As soon as one address was reached, whatever its place, the endpoint is reached, and no
/// address was reached faster than the latency that counts.
pub proof fn law_any_latency_counts(
    outcomes: Seq<AddrOutcome>,
    r: Result<(SocketAddr, Duration), String>,
)
    requires
        addrs_judged(outcomes, r),
    ensures
        forall|j: int|
            0 <= j < outcomes.len() ==> (#[trigger] outcomes[j] matches AddrOutcome::Probed {
                result: AddrResult::Latency(l),
                ..
            } ==> (r matches Ok(found) && found.1@ <= l@)),
{
    assert forall|j: int| 0 <= j < outcomes.len() implies (
    #[trigger] outcomes[j] matches AddrOutcome::Probed { result: AddrResult::Latency(l), .. } ==> (
    r matches Ok(found) && found.1@ <= l@)) by {
        if let AddrOutcome::Probed { result: AddrResult::Latency(l), .. } = outcomes[j] {
            assert(outcomes[j].reached());
        }
    }
}

/// The address and the latency that count are those of one probe that reached its address, the
/// first to end of the fastest.
pub proof fn law_reached_address(
    outcomes: Seq<AddrOutcome>,
    r: Result<(SocketAddr, Duration), String>,
) -> (i: int)
    requires
        addrs_judged(outcomes, r),
        r is Ok,
    ensures
        0 <= i < outcomes.len(),
        outcomes[i] matches AddrOutcome::Probed { addr, result: AddrResult::Latency(l), .. } && r
            == Ok::<_, String>((addr, l)),
        forall|j: int|
            0 <= j < i ==> (#[trigger] outcomes[j] matches AddrOutcome::Probed {
                result: AddrResult::Latency(l),
                ..
            } ==> r->Ok_0.1@ < l@),
{
    let i = choose|i: int| #[trigger] fastest(outcomes, i) && outcomes[i].found() == r->Ok_0;
    assert forall|j: int| 0 <= j < i implies (#[trigger] outcomes[j] matches AddrOutcome::Probed {
        result: AddrResult::Latency(l),
        ..
    } ==> r->Ok_0.1@ < l@) by {
        if let AddrOutcome::Probed { result: AddrResult::Latency(l), .. } = outcomes[j] {
            assert(outcomes[j].reached());
        }
    }
    i
}

/// Where no address was reached, the error is that of the failed probe whose address comes first,
/// in words; where no probe was made that could fail, it says that there are no addresses, or
/// that the probes were lost.
pub proof fn law_unreached_error(
    outcomes: Seq<AddrOutcome>,
    r: Result<(SocketAddr, Duration), String>,
) -> (i: int)
    requires
        addrs_judged(outcomes, r),
        r is Err,
    ensures
        outcomes.len() == 0 ==> r->Err_0@ == "no addresses"@,
        outcomes.len() > 0 && (forall|j: int|
            0 <= j < outcomes.len() ==> (#[trigger] outcomes[j]) is Lost) ==> r->Err_0@
            == "probe task failed"@,
        (exists|j: int| 0 <= j < outcomes.len() && (#[trigger] outcomes[j]) is Probed) ==> {
            &&& 0 <= i < outcomes.len()
            &&& outcomes[i] matches AddrOutcome::Probed { index, label, result, .. }
            &&& match result {
                AddrResult::Latency(_) => false,
                AddrResult::Failed(e) => r->Err_0@ == label@ + ": "@ + e@,
                AddrResult::TimedOut(limit) => r->Err_0@ == label@ + ": "@ + (
                "probe timed out after "@ + limit@),
            }
            &&& forall|j: int|
                0 <= j < outcomes.len() ==> (#[trigger] outcomes[j] matches AddrOutcome::Probed {
                    index: other,
                    ..
                } ==> index <= other)
        },
{
    assert(forall|j: int| 0 <= j < outcomes.len() ==> !(#[trigger] outcomes[j]).reached());
    if exists|j: int| 0 <= j < outcomes.len() && (#[trigger] outcomes[j]) is Probed {
        let j = choose|j: int| 0 <= j < outcomes.len() && (#[trigger] outcomes[j]) is Probed;
        assert(outcomes[j].failed());
        let i = choose|i: int| #[trigger]
            first_failure(outcomes, i) && r->Err_0@ == outcomes[i].failure();
        assert forall|k: int| 0 <= k < outcomes.len() implies (
        #[trigger] outcomes[k] matches AddrOutcome::Probed { index: other, .. }
            ==> outcomes[i]->index <= other) by {
            assert(!outcomes[k].reached());
            if outcomes[k] is Probed {
                assert(outcomes[k].failed());
            }
        }
        i
    } else {
        0
    }
}

/// One more outcome of a probe adds one entry: to the endpoints that were reached, to the
/// failures under its endpoint, or to the failures as a lost probe behind every place.
pub proof fn law_probe_lists(outcomes: Seq<ProbeOutcome>, more: ProbeOutcome)
    ensures
        reached_endpoints(Seq::<ProbeOutcome>::empty()) == Seq::<(usize, ProbeOk)>::empty(),
        failures(Seq::<ProbeOutcome>::empty()) == Seq::<Failure>::empty(),
        match more {
            ProbeOutcome::Lost(e) => {
                &&& reached_endpoints(outcomes.push(more)) == reached_endpoints(outcomes)
                &&& failures(outcomes.push(more)) == failures(outcomes).push(
                    (usize::MAX, "<probe task>"@, e@),
                )
            },
            ProbeOutcome::Probed { index, endpoint, result } => match result {
                Ok(found) => {
                    &&& failures(outcomes.push(more)) == failures(outcomes)
                    &&& reached_endpoints(outcomes.push(more)) == reached_endpoints(outcomes).push(
                        (index, ProbeOk { endpoint, addr: found.0, latency: found.1 }),
                    )
                },
                Err(e) => {
                    &&& reached_endpoints(outcomes.push(more)) == reached_endpoints(outcomes)
                    &&& failures(outcomes.push(more)) == failures(outcomes).push(
                        (index, endpoint@, e@),
                    )
                },
            },
        },
{
    assert(outcomes.push(more).drop_last() =~= outcomes);
}

proof fn lemma_reached_kept(outcomes: Seq<ProbeOutcome>, j: int) -> (i: int)
    requires
        0 <= j < outcomes.len(),
        outcomes[j] matches ProbeOutcome::Probed { result: Ok(_), .. },
    ensures
        0 <= i < reached_endpoints(outcomes).len(),
        outcomes[j] matches ProbeOutcome::Probed { index, endpoint, result: Ok(found) }
            && reached_endpoints(outcomes)[i] == (
            index,
            ProbeOk { endpoint, addr: found.0, latency: found.1 },
        ),
    decreases outcomes.len(),
{
    let rest = outcomes.drop_last();
    if j < rest.len() {
        lemma_reached_kept(rest, j)
    } else {
        reached_endpoints(rest).len() as int
    }
}

proof fn lemma_reached_source(outcomes: Seq<ProbeOutcome>, i: int) -> (j: int)
    requires
        0 <= i < reached_endpoints(outcomes).len(),
    ensures
        0 <= j < outcomes.len(),
        outcomes[j] matches ProbeOutcome::Probed { index, endpoint, result: Ok(found) }
            && reached_endpoints(outcomes)[i] == (
            index,
            ProbeOk { endpoint, addr: found.0, latency: found.1 },
        ),
    decreases outcomes.len(),
{
    let rest = outcomes.drop_last();
    if i < reached_endpoints(rest).len() {
        lemma_reached_source(rest, i)
    } else {
        outcomes.len() - 1
    }
}

/// As soon as one endpoint was reached, whatever its place, an endpoint is selected, and none was
/// reached faster, nor as fast from an earlier place. It is selected just as its probe found it.
pub proof fn law_any_reached_endpoint_counts(
    outcomes: Seq<ProbeOutcome>,
    r: Result<ProbeOk, FallbackReason>,
) -> (i: int)
    requires
        endpoints_judged(outcomes, r),
    ensures
        r is Ok <==> exists|j: int|
            0 <= j < outcomes.len() && (#[trigger] outcomes[j] matches ProbeOutcome::Probed {
                result: Ok(_),
                ..
            }),
        r matches Ok(best) ==> {
            &&& 0 <= i < outcomes.len()
            &&& outcomes[i] matches ProbeOutcome::Probed { index, endpoint, result: Ok(found) }
            &&& best == (ProbeOk { endpoint, addr: found.0, latency: found.1 })
            &&& forall|j: int|
                0 <= j < outcomes.len() ==> (#[trigger] outcomes[j] matches ProbeOutcome::Probed {
                    index: other,
                    result: Ok(reached),
                    ..
                } ==> best.latency@ < reached.1@ || (best.latency@ == reached.1@ && index <= other))
        },
{
    let reached = reached_endpoints(outcomes);
    if exists|j: int|
        0 <= j < outcomes.len() && (#[trigger] outcomes[j] matches ProbeOutcome::Probed {
            result: Ok(_),
            ..
        }) {
        let j = choose|j: int|
            0 <= j < outcomes.len() && (#[trigger] outcomes[j] matches ProbeOutcome::Probed {
                result: Ok(_),
                ..
            });
        let k = lemma_reached_kept(outcomes, j);
    }
    if let Ok(best) = r {
        let k = choose|k: int| #[trigger] best_result(reached, k) && best == reached[k].1;
        let i = lemma_reached_source(outcomes, k);
        assert forall|j: int| 0 <= j < outcomes.len() implies (
        #[trigger] outcomes[j] matches ProbeOutcome::Probed { index: other, result: Ok(found), .. }
            ==> best.latency@ < found.1@ || (best.latency@ == found.1@ && reached[k].0
            <= other)) by {
            if let ProbeOutcome::Probed { index: other, result: Ok(found), .. } = outcomes[j] {
                let l = lemma_reached_kept(outcomes, j);
                assert(!preferred(reached[l], reached[k]));
            }
        }
        i
    } else {
        0
    }
}

/// Where no endpoint was reached, the reason lists as many failures as there were probes: under
/// each endpoint the error of its probe, and each lost probe with why it was lost.
pub proof fn law_every_failure_is_listed(
    outcomes: Seq<ProbeOutcome>,
    r: Result<ProbeOk, FallbackReason>,
)
    requires
        endpoints_judged(outcomes, r),
        r is Err,
    ensures
        r matches Err(FallbackReason::AllProbesFailed(list)) && list@.len() == outcomes.len()
            && list.deep_view() == without_places(by_place(failures(outcomes))),
        forall|j: int|
            0 <= j < outcomes.len() ==> exists|k: int|
                0 <= k < outcomes.len() && #[trigger] without_places(by_place(failures(outcomes)))[k]
                    == match #[trigger] outcomes[j] {
                    ProbeOutcome::Lost(e) => ("<probe task>"@, e@),
                    ProbeOutcome::Probed { endpoint, result, .. } => (
                        endpoint@,
                        result->Err_0@,
                    ),
                },
{
    law_every_probe_counts(outcomes);
    let list = failures(outcomes);
    if let Err(FallbackReason::AllProbesFailed(named)) = r {
        assert(named.deep_view().len() == named@.len());
    }
    assert forall|j: int| 0 <= j < outcomes.len() implies exists|k: int|
        0 <= k < outcomes.len() && #[trigger] without_places(by_place(failures(outcomes)))[k]
            == match #[trigger] outcomes[j] {
            ProbeOutcome::Lost(e) => ("<probe task>"@, e@),
            ProbeOutcome::Probed { endpoint, result, .. } => (endpoint@, result->Err_0@),
        } by {
        if outcomes[j] matches ProbeOutcome::Probed { result: Ok(_), .. } {
            let l = lemma_reached_kept(outcomes, j);
        }
        let i = lemma_failure_kept(outcomes, j);
        let k = lemma_by_place_kept(list, i);
        assert(without_places(by_place(list))[k] == (list[i].1, list[i].2));
    }
}

proof fn lemma_failure_kept(outcomes: Seq<ProbeOutcome>, j: int) -> (i: int)
    requires
        0 <= j < outcomes.len(),
        !(outcomes[j] matches ProbeOutcome::Probed { result: Ok(_), .. }),
    ensures
        0 <= i < failures(outcomes).len(),
        match outcomes[j] {
            ProbeOutcome::Lost(e) => failures(outcomes)[i].1 == "<probe task>"@
                && failures(outcomes)[i].2 == e@,
            ProbeOutcome::Probed { endpoint, result, .. } => failures(outcomes)[i].1 == endpoint@
                && failures(outcomes)[i].2 == result->Err_0@,
        },
    decreases outcomes.len(),
{
    let rest = outcomes.drop_last();
    if j < rest.len() {
        let i = lemma_failure_kept(rest, j);
        assert(failures(outcomes)[i] == failures(rest)[i]);
        i
    } else {
        failures(rest).len() as int
    }
}

proof fn lemma_insert_kept(sorted: Seq<Failure>, f: Failure, i: int) -> (k: int)
    requires
        -1 <= i < sorted.len(),
    ensures
        0 <= k < insert_by_place(sorted, f).len(),
        insert_by_place(sorted, f)[k] == if i < 0 {
            f
        } else {
            sorted[i]
        },
    decreases sorted.len(),
{
    if sorted.len() == 0 || sorted.last().0 <= f.0 {
        if i < 0 {
            sorted.len() as int
        } else {
            i
        }
    } else if i == sorted.len() - 1 {
        insert_by_place(sorted.drop_last(), f).len() as int
    } else {
        lemma_insert_kept(sorted.drop_last(), f, i)
    }
}

proof fn lemma_by_place_kept(list: Seq<Failure>, i: int) -> (k: int)
    requires
        0 <= i < list.len(),
    ensures
        0 <= k < by_place(list).len(),
        by_place(list)[k] == list[i],
    decreases list.len(),
{
    let rest = list.drop_last();
    if i < rest.len() {
        let j = lemma_by_place_kept(rest, i);
        lemma_insert_kept(by_place(rest), list.last(), j)
    } else {
        lemma_insert_kept(by_place(rest), list.last(), -1)
    }
}

/// The best of some results has the lowest latency, and of those the earliest place; and of equal
/// results it is the first.
pub proof fn law_best_result(results: Seq<(usize, ProbeOk)>, i: int, j: int)
    requires
        best_result(results, i),
        0 <= j < results.len(),
    ensures
        0 <= i < results.len(),
        results[i].1.latency@ <= results[j].1.latency@,
        results[i].1.latency@ == results[j].1.latency@ ==> results[i].0 <= results[j].0,
        results[i].1.latency@ == results[j].1.latency@ && results[i].0 == results[j].0 ==> i <= j,
{
    assert(!preferred(results[j], results[i]));
    if j < i {
        assert(preferred(results[i], results[j]));
    }
}

/// Where nothing was reached, no probe reached anything.
pub proof fn law_none_reached(outcomes: Seq<ProbeOutcome>)
    ensures
        reached_endpoints(outcomes).len() == 0 <==> forall|j: int|
            0 <= j < outcomes.len() ==> !(#[trigger] outcomes[j] matches ProbeOutcome::Probed {
                result: Ok(_),
                ..
            }),
{
    if reached_endpoints(outcomes).len() > 0 {
        let j = lemma_reached_source(outcomes, 0);
    }
    assert forall|j: int|
        0 <= j < outcomes.len() && (#[trigger] outcomes[j] matches ProbeOutcome::Probed {
            result: Ok(_),
            ..
        }) implies reached_endpoints(outcomes).len() > 0 by {
        let i = lemma_reached_kept(outcomes, j);
    }
}

} // verus!
