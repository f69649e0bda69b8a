use stk::health::HealthStatus;
use stk::ssh_pool::{
    session_drain_decision, ManagedSession, OwnerDecision, ScheduledRotationProgress,
    ScheduledSessionRotation, SessionDrainDecision, SessionPool, SshNodeState, SshSessionState,
    SshSessionStatus,
};

const SECOND: u128 = 1_000_000_000;
const NOW: u128 = 1_000 * SECOND;

fn detached_session(id: u64, status: SshSessionStatus, retiring: bool) -> ManagedSession {
    let mut session = ManagedSession::new(id);
    session.state.status = status;
    session.retire_requested = retiring;
    session.connected = true;
    session
}

fn pool(sessions: Vec<ManagedSession>) -> SessionPool {
    SessionPool {
        sessions,
        remote_owner: None,
    }
}

#[test]
fn suspect_and_retiring_sessions_do_not_accept_new_channels() {
    let suspect = detached_session(1, SshSessionStatus::Suspect, false);
    let retiring = detached_session(2, SshSessionStatus::Healthy, true);
    let node = pool(vec![suspect, retiring]);
    assert!(!node.has_available_session(4));
    assert!(node.channel_candidates(4).is_empty());
}

#[test]
fn draining_session_waits_while_payload_is_progressing() {
    let now = NOW;
    let timeout = 30 * SECOND;
    let mut state = SshSessionState {
        status: SshSessionStatus::Draining,
        drain_started: Some(now - 60 * SECOND),
        drain_idle_since: Some(now - 31 * SECOND),
        drain_payload_generation: 10,
        ..SshSessionState::connecting()
    };

    assert_eq!(
        session_drain_decision(&mut state, 1, 11, now, timeout),
        SessionDrainDecision::Waiting
    );
    assert_eq!(state.drain_idle_since, Some(now));
    assert_eq!(
        session_drain_decision(&mut state, 1, 11, now + 29 * SECOND, timeout),
        SessionDrainDecision::Waiting
    );
    assert_eq!(
        session_drain_decision(&mut state, 1, 11, now + 30 * SECOND, timeout),
        SessionDrainDecision::Stalled
    );
    assert_eq!(
        session_drain_decision(&mut state, 0, 11, now, timeout),
        SessionDrainDecision::Drained
    );
}

#[test]
fn forced_turnover_prefers_the_oldest_non_owner_session() {
    let mut owner = detached_session(1, SshSessionStatus::Draining, true);
    let mut oldest_non_owner = detached_session(2, SshSessionStatus::Draining, true);
    let mut newest_non_owner = detached_session(3, SshSessionStatus::Draining, true);
    owner.state.drain_started = Some(NOW - 90 * SECOND);
    oldest_non_owner.state.drain_started = Some(NOW - 60 * SECOND);
    newest_non_owner.state.drain_started = Some(NOW - 30 * SECOND);
    let mut node = pool(vec![owner, oldest_non_owner, newest_non_owner]);
    node.remote_owner = Some(1);

    let selected = node.oldest_retiring_session(NOW).unwrap();
    assert_eq!(node.sessions[selected].id, 2);

    node.remote_owner = None;
    let selected = node.oldest_retiring_session(NOW).unwrap();
    assert_eq!(node.sessions[selected].id, 1);

    node.remote_owner = Some(1);
    assert_eq!(node.begin_forced_turnover(NOW), Some(2));
    assert!(node.sessions[1].state.forced_turnover_requested);
}

#[test]
fn channels_go_to_the_best_session_first() {
    let mut slow = detached_session(1, SshSessionStatus::Healthy, false);
    slow.state.rtt_millis = Some(50);
    let mut busy = detached_session(2, SshSessionStatus::Healthy, false);
    busy.state.rtt_millis = Some(10);
    busy.in_flight = 9;
    let mut quick = detached_session(3, SshSessionStatus::Healthy, false);
    quick.state.rtt_millis = Some(20);
    let unknown = detached_session(4, SshSessionStatus::Healthy, false);
    let node = pool(vec![slow, busy, quick, unknown]);
    assert_eq!(node.channel_candidates(64), vec![3, 1, 2, 4]);
    assert_eq!(node.channel_candidates(9), vec![3, 1, 4]);
    assert_eq!(node.in_flight(), 9);
}

#[test]
fn a_released_channel_can_be_taken_again() {
    let mut node = pool(vec![detached_session(1, SshSessionStatus::Healthy, false)]);
    assert!(node.reserve_in_flight(1, 1));
    assert!(!node.reserve_in_flight(1, 1));
    assert!(!node.reserve_in_flight(2, 1));
    node.release_in_flight(1);
    assert_eq!(node.sessions[0].in_flight, 0);
    assert!(node.reserve_in_flight(1, 1));
}

#[test]
fn a_session_lives_and_ends() {
    let mut node = SessionPool::new();
    node.add_session(7);
    assert_eq!(node.sessions[0].state.status, SshSessionStatus::Connecting);
    node.session_established(7, 40);
    assert_eq!(node.sessions[0].state.status, SshSessionStatus::Healthy);
    node.channel_opened(7, 120);
    assert_eq!(node.sessions[0].state.rtt_millis, Some(50));
    node.request_session_retirement(7, NOW);
    node.request_session_retirement(7, NOW + SECOND);
    assert_eq!(node.sessions[0].state.retirement_started, Some(NOW));
    assert!(node.session_ended(7, "gone"));
    assert_eq!(node.sessions[0].state.last_error.as_deref(), Some("gone"));
    node.set_remote_owner(Some(7));
    assert!(node.remove_session(7));
    assert!(node.sessions.is_empty());
}

#[test]
fn a_host_is_as_healthy_as_its_sessions() {
    let mut state = SshNodeState::unknown();
    assert_eq!(state.status, HealthStatus::Unknown);
    let mut quick = detached_session(1, SshSessionStatus::Healthy, false);
    quick.state.rtt_millis = Some(9);
    let mut slow = detached_session(2, SshSessionStatus::Healthy, false);
    slow.state.rtt_millis = Some(90);
    slow.state.last_error = Some("slow".to_string());
    state.refresh(&vec![slow, quick]);
    assert_eq!(state.status, HealthStatus::Healthy);
    assert_eq!(state.rtt_millis, Some(9));
    assert_eq!(state.last_error.as_deref(), Some("slow"));
    state.refresh(&vec![detached_session(1, SshSessionStatus::Suspect, false)]);
    assert_eq!(state.status, HealthStatus::Degraded);
    state.refresh(&vec![detached_session(1, SshSessionStatus::Offline, false)]);
    assert_eq!(state.status, HealthStatus::Offline);
}

#[test]
fn remote_forwards_go_to_a_serving_session() {
    let mut node = pool(vec![
        detached_session(1, SshSessionStatus::Healthy, true),
        detached_session(2, SshSessionStatus::Healthy, false),
    ]);
    assert_eq!(node.remote_owner_decision(false), OwnerDecision::Settled);
    assert_eq!(
        node.remote_owner_decision(true),
        OwnerDecision::Handover { from: None, to: 2 }
    );
    node.remote_owner = Some(1);
    assert_eq!(
        node.remote_owner_decision(true),
        OwnerDecision::Handover {
            from: Some(1),
            to: 2
        }
    );
    node.remote_owner = Some(2);
    assert_eq!(node.remote_owner_decision(true), OwnerDecision::Settled);
    node.sessions.truncate(1);
    node.remote_owner = Some(1);
    assert_eq!(
        node.remote_owner_decision(true),
        OwnerDecision::Release { owner: 1 }
    );
    node.remote_owner = None;
    assert_eq!(node.remote_owner_decision(true), OwnerDecision::NoStandby);
}

#[test]
fn sessions_drain_one_after_the_other() {
    let mut node = pool(vec![
        detached_session(1, SshSessionStatus::Healthy, true),
        detached_session(2, SshSessionStatus::Healthy, true),
        detached_session(3, SshSessionStatus::Healthy, false),
    ]);
    node.sessions[0].in_flight = 1;
    node.sessions[1].in_flight = 1;
    assert!(node
        .drain_replaced_sessions(2, 30 * SECOND, NOW)
        .is_empty());
    assert_eq!(node.sessions[0].state.status, SshSessionStatus::Healthy);

    assert!(node
        .drain_replaced_sessions(1, 30 * SECOND, NOW)
        .is_empty());
    let draining = |node: &SessionPool| {
        node.sessions
            .iter()
            .filter(|session| session.state.status == SshSessionStatus::Draining)
            .count()
    };
    assert_eq!(draining(&node), 1);
    let out = node.drain_replaced_sessions(1, 30 * SECOND, NOW + 31 * SECOND);
    assert_eq!(out, vec![(1, SessionDrainDecision::Stalled)]);
    assert!(SessionDrainDecision::Stalled.disconnect_reason().is_some());
    assert!(SessionDrainDecision::Waiting.disconnect_reason().is_none());
}

#[test]
fn scheduled_rotation_waits_for_a_healthy_replacement() {
    let mut node = pool(vec![
        detached_session(1, SshSessionStatus::Healthy, false),
        detached_session(2, SshSessionStatus::Connecting, false),
    ]);
    let rotation = ScheduledSessionRotation {
        candidate_session_id: 1,
        replacement_session_id: Some(2),
    };
    assert_eq!(
        node.advance_scheduled_session_rotation(rotation, NOW),
        ScheduledRotationProgress::Waiting
    );
    assert!(!node.sessions[0].retire_requested);
    node.session_established(2, 5);
    assert_eq!(
        node.advance_scheduled_session_rotation(rotation, NOW),
        ScheduledRotationProgress::Activated
    );
    assert!(node.sessions[0].retire_requested);
    assert!(!node.sessions[1].retire_requested);
}

#[test]
fn idle_elastic_sessions_leave_the_newest_first() {
    let node = pool(vec![
        detached_session(1, SshSessionStatus::Healthy, false),
        detached_session(2, SshSessionStatus::Healthy, false),
        detached_session(3, SshSessionStatus::Healthy, false),
    ]);
    assert_eq!(node.newest_idle_elastic_session_id(1), Some(3));
    assert_eq!(node.newest_idle_elastic_session_id(3), None);
    assert_eq!(node.oldest_healthy_session_id(), Some(1));
    assert_eq!(node.count_serving(), 3);
}
