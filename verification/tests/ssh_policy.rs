use stk::network::{ConnectivitySnapshot, NetworkAvailability};
use stk::ssh_policy::{
    can_start_another_session, initial_session_start_count, next_backoff,
    probe_failure_requires_disconnect, session_manager_tick_interval,
    session_manager_ticker_delay, session_pool_can_scale_down, session_pool_is_under_pressure,
    session_pool_requires_forced_turnover, session_spawn_authorized,
    OFFLINE_REMOTE_REFRESH_INTERVAL, RESUME_SETTLE_INTERVAL,
};

const SECOND: u128 = 1_000_000_000;

#[test]
fn restart_backoff_is_capped() {
    assert_eq!(next_backoff(20 * SECOND, 30 * SECOND), 30 * SECOND);
}

#[test]
fn ssh_session_start_concurrency_is_bounded_per_host() {
    assert_eq!(initial_session_start_count(1), 1);
    assert_eq!(initial_session_start_count(10), 2);
    assert!(can_start_another_session(1));
    assert!(!can_start_another_session(2));
}

#[test]
fn resume_settle_deadline_survives_intermediate_manager_events() {
    let now = 7 * SECOND;
    let deadline = now + RESUME_SETTLE_INTERVAL;

    assert_eq!(
        session_manager_ticker_delay(Some(deadline), now),
        RESUME_SETTLE_INTERVAL
    );
    assert_eq!(
        session_manager_ticker_delay(Some(deadline), now + RESUME_SETTLE_INTERVAL / 2),
        RESUME_SETTLE_INTERVAL / 2
    );
    assert_eq!(session_manager_ticker_delay(Some(deadline), deadline), 0);
}

#[test]
fn connectivity_policy_blocks_offline_spawns_and_preserves_remote_recovery() {
    let snapshot = |availability, events_available| ConnectivitySnapshot {
        availability,
        events_available,
        resume_generation: 0,
        generation: 1,
    };
    assert!(!session_spawn_authorized(
        snapshot(NetworkAvailability::Offline, true),
        true,
        true,
        1,
    ));
    assert!(!session_spawn_authorized(
        snapshot(NetworkAvailability::Online, false),
        false,
        false,
        0,
    ));
    assert!(session_spawn_authorized(
        snapshot(NetworkAvailability::Online, false),
        false,
        true,
        0,
    ));
    assert!(session_spawn_authorized(
        snapshot(NetworkAvailability::Online, false),
        true,
        false,
        0,
    ));
    assert_eq!(
        session_manager_tick_interval(
            snapshot(NetworkAvailability::Offline, false),
            true,
            false,
        ),
        OFFLINE_REMOTE_REFRESH_INTERVAL
    );
}

#[test]
fn elastic_session_pool_uses_hysteresis() {
    assert!(!session_pool_is_under_pressure(2, 1, 4));
    assert!(session_pool_is_under_pressure(3, 1, 4));
    assert!(session_pool_is_under_pressure(6, 2, 4));

    assert!(!session_pool_can_scale_down(2, 2, 1, 4));
    assert!(session_pool_can_scale_down(1, 2, 1, 4));
    assert!(!session_pool_can_scale_down(0, 1, 1, 4));
}

#[test]
fn saturated_pool_forces_turnover_only_when_every_slot_is_retiring() {
    assert!(session_pool_requires_forced_turnover(3, 3, 3, true, false));
    assert!(!session_pool_requires_forced_turnover(3, 2, 3, true, false));
    assert!(!session_pool_requires_forced_turnover(2, 2, 3, true, false));
    assert!(!session_pool_requires_forced_turnover(
        3, 3, 3, false, false
    ));
    assert!(!session_pool_requires_forced_turnover(3, 3, 3, true, true));
}

#[test]
fn failed_probe_does_not_disconnect_a_session_with_active_channels() {
    assert!(!probe_failure_requires_disconnect(3, 3, 1));
    assert!(!probe_failure_requires_disconnect(2, 3, 0));
    assert!(probe_failure_requires_disconnect(3, 3, 0));
}
