use http_fo::{probe_after_race, probe_start, rank_after_race, rank_by_latency, IpAddress, ProbeStep};

fn ip(n: u32) -> IpAddress {
    IpAddress::V4(n)
}

#[test]
fn single_ip_skips_probe() {
    let one = IpAddress::V4(u32::from_be_bytes([127, 0, 0, 1]));
    match probe_start(&vec![one], true) {
        ProbeStep::Done(ranked) => assert_eq!(ranked, vec![one]),
        _ => panic!("a single address needs no probe"),
    }
}

#[test]
fn probe_start_race_or_measure() {
    assert!(matches!(probe_start(&vec![ip(1), ip(2)], true), ProbeStep::RaceConnect));
    assert!(matches!(probe_start(&vec![ip(1), ip(2)], false), ProbeStep::MeasureLatencies));
    assert!(matches!(probe_start(&vec![], true), ProbeStep::Done(v) if v.is_empty()));
}

#[test]
fn race_winner_first_then_rest() {
    let ips = vec![ip(1), ip(2), ip(3), ip(4)];
    assert_eq!(rank_after_race(&ips, ip(3), 3), vec![ip(3), ip(1), ip(2)]);
    assert_eq!(rank_after_race(&ips, ip(3), 0), vec![ip(3)]);
    assert_eq!(rank_after_race(&ips, ip(3), 10), vec![ip(3), ip(1), ip(2), ip(4)]);
}

#[test]
fn race_without_winner_measures() {
    let ips = vec![ip(1), ip(2)];
    assert!(matches!(probe_after_race(&ips, None, 3), ProbeStep::MeasureLatencies));
    assert!(matches!(probe_after_race(&ips, Some(ip(2)), 3), ProbeStep::Done(v) if v == vec![ip(2), ip(1)]));
}

#[test]
fn latency_ranking_buckets_then_latency() {
    let ips = vec![ip(1), ip(2), ip(3), ip(4)];
    // 25 ms, 21 ms, 5 ms, 22 ms with 10 ms buckets: 30, 30, 10, 30.
    let lat = vec![25_000_000, 21_000_000, 5_000_000, 22_000_000];
    assert_eq!(rank_by_latency(&ips, &lat, 10, 3), vec![ip(3), ip(2), ip(4)]);
}

#[test]
fn latency_ranking_is_stable_on_ties() {
    let ips = vec![ip(1), ip(2), ip(3)];
    let lat = vec![7_000_000, 7_000_000, 7_000_000];
    assert_eq!(rank_by_latency(&ips, &lat, 10, 5), vec![ip(1), ip(2), ip(3)]);
}

#[test]
fn latency_ranking_keeps_at_least_one() {
    let ips = vec![ip(1), ip(2)];
    let lat = vec![9_000_000, 1_000_000];
    assert_eq!(rank_by_latency(&ips, &lat, 1, 0), vec![ip(2)]);
}

#[test]
fn latency_ranking_zero_bucket_width() {
    let ips = vec![ip(1), ip(2)];
    let lat = vec![9_000_000, 2_000_000];
    assert_eq!(rank_by_latency(&ips, &lat, 0, 3), vec![ip(2), ip(1)]);
}
