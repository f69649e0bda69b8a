use stk::config::SshPoolConfig;
use stk::health::LoadBalancePolicy;
use stk::network::{ConnectivitySnapshot, NetworkAvailability};
use stk::ssh_manager::{count_sessions, ManagerPolicy, SessionManager};
use stk::ssh_policy::{
    ewma_rtt, session_recovery_poll_interval, DORMANT_SESSION_MANAGER_INTERVAL,
    RESUME_SETTLE_INTERVAL, SESSION_MANAGER_TICK_INTERVAL, SESSION_SCALE_UP_SUSTAINED_INTERVAL,
};
use stk::ssh_pool::SessionPool;

const SECOND: u128 = 1_000_000_000;
const NOW: u128 = 1_000 * SECOND;

fn policy(minimum: usize, maximum: usize) -> ManagerPolicy {
    ManagerPolicy {
        initial_backoff: SECOND / 2,
        max_backoff: 30 * SECOND,
        spawn_cooldown: SECOND,
        drain_timeout: 300 * SECOND,
        rotation_interval: None,
        min_sessions: minimum,
        max_sessions: maximum,
        max_channels: 4,
        requires_remote_availability: false,
    }
}

fn snapshot(availability: NetworkAvailability) -> ConnectivitySnapshot {
    ConnectivitySnapshot {
        availability,
        events_available: true,
        resume_generation: 0,
        generation: 1,
    }
}

#[test]
fn offline_connectivity_defers_initial_spawn_until_network_recovers() {
    let (mut manager, starts, ticker) = SessionManager::start(
        policy(1, 2),
        snapshot(NetworkAvailability::Offline),
        NOW,
    );
    assert_eq!(starts, 0);
    assert_eq!(ticker.period, DORMANT_SESSION_MANAGER_INTERVAL);
    let ticker =
        manager.on_connectivity_change(snapshot(NetworkAvailability::Online), false, NOW + SECOND);
    assert_eq!(ticker.delay, 0);
    assert_eq!(ticker.period, SESSION_MANAGER_TICK_INTERVAL);
    let mut pool = SessionPool::new();
    let plan = manager.plan_tick(&mut pool, 5, NOW + SECOND);
    assert_eq!(plan.spawn, Some(5));
}

#[test]
fn a_pool_starts_with_few_sessions_at_once() {
    let (manager, starts, _) = SessionManager::start(
        policy(5, 9),
        snapshot(NetworkAvailability::Online),
        NOW,
    );
    assert_eq!(starts, 2);
    assert_eq!(manager.desired_sessions, 5);
    assert_eq!(manager.startup_spawn_budget, 3);
}

#[test]
fn native_ssh_pool_scales_with_pressure() {
    let (mut manager, _, _) =
        SessionManager::start(policy(1, 3), snapshot(NetworkAvailability::Online), NOW);
    let mut pool = SessionPool::new();
    pool.add_session(1);
    pool.session_established(1, 5);
    pool.sessions[0].in_flight = 4;
    let plan = manager.plan_tick(&mut pool, 2, NOW);
    assert_eq!(plan.spawn, None);
    let later = NOW + SESSION_SCALE_UP_SUSTAINED_INTERVAL;
    let plan = manager.plan_tick(&mut pool, 2, later);
    assert_eq!(manager.desired_sessions, 2);
    assert_eq!(plan.spawn, Some(2));
}

#[test]
fn saturated_retiring_pool_forces_one_session_out_before_replacement() {
    let (mut manager, _, _) =
        SessionManager::start(policy(1, 1), snapshot(NetworkAvailability::Online), NOW);
    let mut pool = SessionPool::new();
    pool.add_session(1);
    pool.session_established(1, 5);
    pool.request_session_retirement(1, NOW);
    let plan = manager.plan_tick(&mut pool, 2, NOW + SECOND);
    assert_eq!(plan.spawn, None);
    assert!(plan.force_turnover);
}

#[test]
fn failed_starts_are_repeated_ever_more_slowly() {
    let (mut manager, _, _) =
        SessionManager::start(policy(1, 1), snapshot(NetworkAvailability::Online), NOW);
    manager.on_session_exit(1, false, false, false, NOW);
    assert_eq!(manager.next_spawn_at, NOW + SECOND / 2);
    assert_eq!(manager.backoff, SECOND);
    manager.on_task_failure(false, NOW);
    assert_eq!(manager.next_spawn_at, NOW + SECOND);
    assert_eq!(manager.backoff, 2 * SECOND);
}

#[test]
fn a_machine_that_slept_settles_first() {
    let (mut manager, _, _) =
        SessionManager::start(policy(1, 1), snapshot(NetworkAvailability::Online), NOW);
    assert!(!manager.begin_tick(true, NOW + SECOND));
    assert!(manager.begin_tick(true, NOW + 100 * SECOND));
    let ticker = manager.on_resume_gap(snapshot(NetworkAvailability::Online), NOW + 100 * SECOND);
    assert_eq!(ticker.delay, RESUME_SETTLE_INTERVAL);
}

#[test]
fn demand_and_owner_attempts_are_taken_in() {
    let (mut manager, _, _) =
        SessionManager::start(policy(1, 1), snapshot(NetworkAvailability::Online), NOW);
    assert!(!manager.demand_needs_refresh());
    manager.on_demand(None, false, NOW);
    assert!(manager.demand_pending);
    assert!(manager.owner_attempt_due(NOW));
    manager.owner_attempt_failed(NOW);
    assert!(!manager.owner_attempt_due(NOW));
    assert!(manager.owner_attempt_due(NOW + SECOND));
    assert_eq!(count_sessions(&vec![]).healthy, 0);
}

#[test]
fn policies_come_from_the_configuration() {
    let pool = SshPoolConfig {
        policy: LoadBalancePolicy::RoundRobin,
        keep_alive_secs: None,
        min_sessions_per_host: 1,
        max_sessions_per_host: 2,
        session_rotation_enabled: true,
        session_rotation_interval_secs: 60,
        max_channels_per_session: 8,
        server_alive_count_max: None,
        connect_timeout_secs: None,
        restart_initial_millis: 100,
        restart_max_secs: 7,
        session_spawn_cooldown_millis: 250,
        session_drain_timeout_secs: 9,
        hosts: Vec::new(),
    };
    let policy = ManagerPolicy::from_pool(&pool, true);
    assert_eq!(policy.initial_backoff, SECOND / 10);
    assert_eq!(policy.max_backoff, 7 * SECOND);
    assert_eq!(policy.spawn_cooldown, SECOND / 4);
    assert_eq!(policy.drain_timeout, 9 * SECOND);
    assert_eq!(policy.rotation_interval, Some(60 * SECOND));
    assert_eq!(policy.min_sessions, 1);
    assert_eq!(policy.max_sessions, 2);
    assert_eq!(policy.max_channels, 8);
    assert!(policy.requires_remote_availability);
}

#[test]
fn round_trip_times_are_smoothed() {
    assert_eq!(ewma_rtt(None, 40), 40);
    assert_eq!(ewma_rtt(Some(80), 40), 75);
    assert_eq!(ewma_rtt(Some(u64::MAX), 1), u64::MAX / 8);
    assert_eq!(
        session_recovery_poll_interval(&vec![2 * SECOND, SECOND]),
        6 * SECOND
    );
    assert_eq!(session_recovery_poll_interval(&vec![]), SECOND);
}
