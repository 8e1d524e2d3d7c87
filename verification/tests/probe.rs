use solana_gun_quic_client::address::SocketAddr;
use solana_gun_quic_client::client::Lookup;
use solana_gun_quic_client::probe::{
    probe_addrs, probe_all, probe_lookup, select_best, AddrOutcome, AddrResult, ProbeOk,
    ProbeOutcome,
};
use solana_gun_quic_client::{Duration, FallbackReason};

fn addr(n: u32) -> SocketAddr {
    SocketAddr::V4 { ipv4: n, port: 7000 }
}

fn probe(index: usize, result: AddrResult) -> AddrOutcome {
    AddrOutcome::Probed { index, addr: addr(index as u32), label: format!("addr{index}"), result }
}

fn took(index: usize, millis: u64) -> AddrOutcome {
    probe(index, AddrResult::Latency(Duration::from_millis(millis)))
}

fn failed(index: usize, error: &str) -> AddrOutcome {
    probe(index, AddrResult::Failed(error.to_string()))
}

#[test]
fn a_reached_address_wins_in_any_order() {
    let good = (addr(1), Duration::from_millis(20));
    assert_eq!(probe_addrs(&vec![failed(0, "dead"), took(1, 20)]), Ok(good));
    assert_eq!(probe_addrs(&vec![took(1, 20), failed(0, "dead")]), Ok(good));
    assert_eq!(probe_addrs(&vec![took(2, 30), took(1, 20), took(0, 40)]), Ok(good));
    assert_eq!(probe_addrs(&vec![AddrOutcome::Lost, took(1, 20)]), Ok(good));
    // Of two that are equally fast, the one that ended first.
    assert_eq!(probe_addrs(&vec![took(1, 20), took(0, 20)]), Ok(good));
}

#[test]
fn total_failure_is_the_first_address_error() {
    let first = Err("addr0: first".to_string());
    assert_eq!(probe_addrs(&vec![failed(1, "second"), failed(0, "first")]), first);
    assert_eq!(probe_addrs(&vec![failed(0, "first"), failed(1, "second")]), first);
    assert_eq!(
        probe_addrs(&vec![
            AddrOutcome::Lost,
            probe(3, AddrResult::TimedOut("500ms".to_string()))
        ]),
        Err("addr3: probe timed out after 500ms".to_string())
    );
    assert_eq!(probe_addrs(&vec![AddrOutcome::Lost]), Err("probe task failed".to_string()));
    assert_eq!(probe_addrs(&vec![]), Err("no addresses".to_string()));
}

#[test]
fn lookups_for_probes() {
    assert_eq!(probe_lookup(Lookup::Found(vec![addr(5)])), Ok(vec![addr(5)]));
    assert_eq!(
        probe_lookup(Lookup::TimedOut("3s".into())),
        Err("dns lookup timed out after 3s".to_string())
    );
    assert_eq!(probe_lookup(Lookup::Failed("nope".into())), Err("dns: nope".to_string()));
}

fn result(order: usize, millis: u64) -> (usize, ProbeOk) {
    let endpoint = format!("h{order}:7000");
    (order, ProbeOk { endpoint, addr: addr(order as u32), latency: Duration::from_millis(millis) })
}

#[test]
fn select_best_takes_the_lowest_latency_then_the_earlier_index() {
    assert_eq!(select_best(&vec![]), None);
    assert_eq!(select_best(&vec![result(0, 30), result(1, 10), result(2, 20)]), Some(1));
    assert_eq!(select_best(&vec![result(2, 10), result(0, 10), result(1, 10)]), Some(1));
    assert_eq!(select_best(&vec![result(4, 10), result(4, 10)]), Some(0));
}

fn outcome(index: usize, probed: Result<u64, &str>) -> ProbeOutcome {
    ProbeOutcome::Probed {
        index,
        endpoint: format!("h{index}:7000"),
        result: match probed {
            Ok(millis) => Ok((addr(index as u32), Duration::from_millis(millis))),
            Err(e) => Err(e.to_string()),
        },
    }
}

#[test]
fn the_fastest_endpoint_is_chosen_whatever_the_order() {
    let mut last_of_many: Vec<ProbeOutcome> = (0..32).map(|i| outcome(i, Err("dead"))).collect();
    last_of_many.push(outcome(32, Ok(700)));
    assert_eq!(probe_all(last_of_many).unwrap().endpoint, "h32:7000");
    for order in [[0, 1, 2], [2, 1, 0], [1, 2, 0]] {
        let latencies = [50, 10, 10];
        let outcomes = order.iter().map(|i| outcome(*i, Ok(latencies[*i]))).collect();
        let best = probe_all(outcomes).unwrap();
        assert_eq!(best.endpoint, "h1:7000");
        assert_eq!(best.addr, addr(1));
        assert_eq!(best.latency, Duration::from_millis(10));
    }
}

#[test]
fn failures_are_listed_in_discovery_order_lost_probes_last() {
    let outcomes = vec![
        ProbeOutcome::Lost("panicked".into()),
        outcome(2, Err("c")),
        outcome(0, Err("a")),
        ProbeOutcome::Lost("cancelled".into()),
        outcome(1, Err("b")),
    ];
    match probe_all(outcomes) {
        Err(FallbackReason::AllProbesFailed(list)) => {
            let list: Vec<(&str, &str)> =
                list.iter().map(|(e, r)| (e.as_str(), r.as_str())).collect();
            assert_eq!(
                list,
                [
                    ("h0:7000", "a"),
                    ("h1:7000", "b"),
                    ("h2:7000", "c"),
                    ("<probe task>", "panicked"),
                    ("<probe task>", "cancelled"),
                ]
            );
        }
        other => panic!("{other:?}"),
    }
}
