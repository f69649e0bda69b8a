use stk::health::{HealthStatus, LoadBalancePolicy, LoadBalancer, SshHostState};

#[test]
fn least_latency_prefers_lowest_rtt() {
    let mut balancer = LoadBalancer::new(LoadBalancePolicy::LeastLatency);
    let candidates = vec![
        SshHostState::selectable("slow", Some(180)),
        SshHostState::selectable("fast", Some(40)),
    ];

    let selected = balancer.select(&candidates).unwrap();
    assert_eq!(selected.name, "fast");
}

#[test]
fn round_robin_rotates_candidates() {
    let mut balancer = LoadBalancer::new(LoadBalancePolicy::RoundRobin);
    let candidates = vec![
        SshHostState::selectable("a", Some(10)),
        SshHostState::selectable("b", Some(20)),
    ];

    assert_eq!(balancer.select(&candidates).unwrap().name, "a");
    assert_eq!(balancer.select(&candidates).unwrap().name, "b");
    assert_eq!(balancer.select(&candidates).unwrap().name, "a");
}

#[test]
fn offline_candidates_are_skipped() {
    let mut balancer = LoadBalancer::new(LoadBalancePolicy::Failover);
    let candidates = vec![
        SshHostState {
            name: "offline".to_string(),
            enabled: true,
            status: HealthStatus::Offline,
            rtt_millis: Some(1),
            in_flight: 0,
        },
        SshHostState::selectable("healthy", Some(100)),
    ];

    assert_eq!(balancer.select(&candidates).unwrap().name, "healthy");
}

#[test]
fn weighted_rtt_counts_the_open_connections() {
    let mut balancer = LoadBalancer::new(LoadBalancePolicy::WeightedRtt);
    let mut near = SshHostState::selectable("near", Some(10));
    near.in_flight = 9;
    let far = SshHostState::selectable("far", Some(99));
    assert_eq!(balancer.select(&vec![near, far]).unwrap().name, "far");

    let mut near = SshHostState::selectable("near", Some(10));
    near.in_flight = 9;
    let far = SshHostState::selectable("far", Some(100));
    assert_eq!(balancer.select(&vec![near, far]).unwrap().name, "near");
}

#[test]
fn a_host_without_a_known_latency_comes_last() {
    for policy in [LoadBalancePolicy::LeastLatency, LoadBalancePolicy::WeightedRtt] {
        let mut balancer = LoadBalancer::new(policy);
        let candidates = vec![
            SshHostState::selectable("unknown", None),
            SshHostState::selectable("known", Some(5_000)),
        ];
        assert_eq!(balancer.select(&candidates).unwrap().name, "known");
    }
}

#[test]
fn nothing_is_selected_where_no_host_is_selectable() {
    let mut balancer = LoadBalancer::new(LoadBalancePolicy::RoundRobin);
    let mut disabled = SshHostState::selectable("disabled", Some(1));
    disabled.enabled = false;
    assert!(balancer.select(&vec![disabled]).is_none());
    assert!(balancer.select(&vec![]).is_none());
    assert_eq!(balancer.next, 0);
    assert!(!HealthStatus::Offline.is_selectable());
    assert!(HealthStatus::Unknown.is_selectable());
}
