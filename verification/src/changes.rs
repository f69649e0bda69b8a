//! The laws of what changes: what each event makes of a session, a pool, a host and a listener,
//! and what it leaves alone.
use crate::config::SshHostConfig;
use crate::engine::{ConnectionIds, ListenerRetry};
use crate::handshake::{HandshakeGuard, HandshakeSide, HandshakeStatus, Wakeups};
use crate::health::{candidate_positions, is_choice, lemma_candidate_positions,
    only_usable_hosts_are_chosen, HealthStatus, LoadBalancePolicy, LoadBalancer, SshHostState};
use crate::named::{value_of, NamedMap};
use crate::network::{ConnectivitySnapshot, NetworkAvailability};
use crate::ssh_dial::DialAttempts;
use crate::ssh_handover::{HandoverStep, RemoteRegistration, RemoteReply, TunnelUpdate};
use crate::ssh_manager::{ManagerPolicy, SessionManager, Ticker};
use crate::ssh_policy::DURATION_MAX;
use crate::ssh_pool::{best_rtt, lemma_session_index, session_index, ManagedSession,
    ScheduledRotationProgress, ScheduledSessionRotation, SessionPool, SshNodeState,
    SshSessionStatus};
use crate::ssh_remote::forward_tunnel;
use crate::status::TunnelRuntimeStatus;
use crate::text::{text_option, texts};
use vstd::prelude::*;

verus! {

// ---------------------------------------------------------------------------
// Sessions
// ---------------------------------------------------------------------------
/// Whether the session `id` stands at a place of a list, and no other one of that number before.
pub open spec fn stands_at(sessions: Seq<ManagedSession>, id: u64, at: int) -> bool {
    &&& 0 <= at < sessions.len()
    &&& sessions[at].id == id
    &&& forall|j: int| 0 <= j < at ==> (#[trigger] sessions[j]).id != id
}

/// Whether two lists differ at one place alone.
pub open spec fn differ_at(
    before: Seq<ManagedSession>,
    after: Seq<ManagedSession>,
    at: int,
) -> bool {
    &&& before.len() == after.len()
    &&& forall|j: int| 0 <= j < before.len() && j != at ==> #[trigger] after[j] == before[j]
}

proof fn lemma_stands(sessions: Seq<ManagedSession>, id: u64, at: int)
    requires
        stands_at(sessions, id, at),
    ensures
        session_index(sessions, id) == at,
{
    lemma_session_index(sessions, id);
    let i = session_index(sessions, id);
    if i < at {
        assert(sessions[i].id != id);
    }
    if at < i {
        assert(sessions[at].id != id);
    }
}

/// A new session stands last. It is connecting, stays, and has no channels; the others are left
/// alone, and so is the holder of the remote forwards.
pub proof fn new_sessions_connect(id: u64)
    ensures
        forall|pool: &mut SessionPool| #[trigger]
            call_ensures(SessionPool::add_session, (pool, id), ()) ==> {
                let made = final(pool).sessions@.last();
                &&& final(pool).sessions@.drop_last() == pool.sessions@
                &&& final(pool).sessions@.len() == pool.sessions@.len() + 1
                &&& final(pool).remote_owner == pool.remote_owner
                &&& made.id == id
                &&& made.state.status == SshSessionStatus::Connecting
                &&& made.in_flight == 0
                &&& !made.retire_requested
                &&& !made.connected
                &&& made.state.rtt_millis is None
                &&& made.state.last_error is None
                &&& !made.state.forced_turnover_requested
            },
{
}

/// A session that is established is healthy and connected, without an error; the time that it
/// took is its first round-trip time. Its channels, and whether it stays, are left alone.
pub proof fn established_sessions_are_healthy(id: u64, millis: u64)
    ensures
        forall|pool: &mut SessionPool, at: int|
            #![trigger call_ensures(SessionPool::session_established, (pool, id, millis), ()),
                stands_at(pool.sessions@, id, at)]
            call_ensures(SessionPool::session_established, (pool, id, millis), ()) && stands_at(
                pool.sessions@,
                id,
                at,
            ) ==> {
                let (before, after) = (pool.sessions@[at], final(pool).sessions@[at]);
                &&& differ_at(pool.sessions@, final(pool).sessions@, at)
                &&& after.state.status == SshSessionStatus::Healthy
                &&& after.connected
                &&& after.state.rtt_millis == Some(millis)
                &&& after.state.last_error is None
                &&& after.id == id
                &&& after.in_flight == before.in_flight
                &&& after.retire_requested == before.retire_requested
            },
{
    assert forall|pool: &mut SessionPool, at: int|
        #![trigger call_ensures(SessionPool::session_established, (pool, id, millis), ()),
            stands_at(pool.sessions@, id, at)]
        call_ensures(SessionPool::session_established, (pool, id, millis), ()) && stands_at(
            pool.sessions@,
            id,
            at,
        ) implies {
        let (before, after) = (pool.sessions@[at], final(pool).sessions@[at]);
        &&& differ_at(pool.sessions@, final(pool).sessions@, at)
        &&& after.state.status == SshSessionStatus::Healthy
        &&& after.connected
        &&& after.state.rtt_millis == Some(millis)
        &&& after.state.last_error is None
        &&& after.id == id
        &&& after.in_flight == before.in_flight
        &&& after.retire_requested == before.retire_requested
    } by {
        lemma_stands(pool.sessions@, id, at);
    }
}

/// A session that ended is offline and not connected, and its error is kept. It tells whether it
/// was to leave.
pub proof fn ended_sessions_are_offline(id: u64, error: &str)
    ensures
        forall|pool: &mut SessionPool, at: int, retired: bool|
            #![trigger call_ensures(SessionPool::session_ended, (pool, id, error), retired),
                stands_at(pool.sessions@, id, at)]
            call_ensures(SessionPool::session_ended, (pool, id, error), retired) && stands_at(
                pool.sessions@,
                id,
                at,
            ) ==> {
                let (before, after) = (pool.sessions@[at], final(pool).sessions@[at]);
                &&& differ_at(pool.sessions@, final(pool).sessions@, at)
                &&& retired == before.retire_requested
                &&& after.state.status == SshSessionStatus::Offline
                &&& !after.connected
                &&& text_option(after.state.last_error) == Some(error@)
                &&& after.id == id
                &&& after.in_flight == before.in_flight
            },
{
    assert forall|pool: &mut SessionPool, at: int, retired: bool|
        #![trigger call_ensures(SessionPool::session_ended, (pool, id, error), retired),
            stands_at(pool.sessions@, id, at)]
        call_ensures(SessionPool::session_ended, (pool, id, error), retired) && stands_at(
            pool.sessions@,
            id,
            at,
        ) implies {
        let (before, after) = (pool.sessions@[at], final(pool).sessions@[at]);
        &&& differ_at(pool.sessions@, final(pool).sessions@, at)
        &&& retired == before.retire_requested
        &&& after.state.status == SshSessionStatus::Offline
        &&& !after.connected
        &&& text_option(after.state.last_error) == Some(error@)
        &&& after.id == id
        &&& after.in_flight == before.in_flight
    } by {
        lemma_stands(pool.sessions@, id, at);
    }
}

/// A session that is removed is gone, and the remote forwards with it where it held them; every
/// other session stays.
pub proof fn removed_sessions_are_gone(id: u64)
    ensures
        forall|pool: &mut SessionPool, lost: bool| #[trigger]
            call_ensures(SessionPool::remove_session, (pool, id), lost) ==> {
                &&& lost <==> pool.remote_owner == Some(id)
                &&& lost ==> final(pool).remote_owner is None
                &&& !lost ==> final(pool).remote_owner == pool.remote_owner
                &&& forall|s: ManagedSession| #[trigger]
                    final(pool).sessions@.contains(s) <==> pool.sessions@.contains(s) && s.id != id
            },
{
    assert forall|pool: &mut SessionPool, lost: bool| #[trigger]
        call_ensures(SessionPool::remove_session, (pool, id), lost) implies {
        &&& lost <==> pool.remote_owner == Some(id)
        &&& lost ==> final(pool).remote_owner is None
        &&& !lost ==> final(pool).remote_owner == pool.remote_owner
        &&& forall|s: ManagedSession| #[trigger]
            final(pool).sessions@.contains(s) <==> pool.sessions@.contains(s) && s.id != id
    } by {
        lemma_others_are_kept(pool.sessions@, final(pool).sessions@, id);
    }
}

proof fn lemma_others_are_kept(sessions: Seq<ManagedSession>, kept: Seq<ManagedSession>, id: u64)
    requires
        kept == sessions.filter(|s: ManagedSession| s.id != id),
    ensures
        forall|s: ManagedSession| #[trigger]
            kept.contains(s) <==> sessions.contains(s) && s.id != id,
{
    let differs = |s: ManagedSession| s.id != id;
    assert forall|s: ManagedSession| #[trigger] kept.contains(s) implies sessions.contains(s)
        && s.id != id by {
        sessions.lemma_filter_contains_rev(differs, s);
        let k = kept.index_of(s);
        sessions.lemma_filter_pred(differs, k);
    }
    assert forall|s: ManagedSession| sessions.contains(s) && s.id != id implies #[trigger]
        kept.contains(s) by {
        let k = sessions.index_of(s);
        sessions.lemma_filter_contains(differs, k);
    }
}

/// A channel is taken of a session if and only if it has fewer than it may have; it has one more
/// then, and nothing else changes.
pub proof fn channels_are_taken_up_to_the_most(id: u64, maximum: usize)
    ensures
        forall|pool: &mut SessionPool, at: int, taken: bool|
            #![trigger call_ensures(SessionPool::reserve_in_flight, (pool, id, maximum), taken),
                stands_at(pool.sessions@, id, at)]
            call_ensures(SessionPool::reserve_in_flight, (pool, id, maximum), taken) && stands_at(
                pool.sessions@,
                id,
                at,
            ) ==> {
                let (before, after) = (pool.sessions@[at], final(pool).sessions@[at]);
                &&& taken <==> before.in_flight < maximum
                &&& differ_at(pool.sessions@, final(pool).sessions@, at)
                &&& taken ==> after.in_flight == before.in_flight + 1
                &&& !taken ==> after == before
                &&& after.state == before.state
                &&& after.retire_requested == before.retire_requested
            },
{
    assert forall|pool: &mut SessionPool, at: int, taken: bool|
        #![trigger call_ensures(SessionPool::reserve_in_flight, (pool, id, maximum), taken),
            stands_at(pool.sessions@, id, at)]
        call_ensures(SessionPool::reserve_in_flight, (pool, id, maximum), taken) && stands_at(
            pool.sessions@,
            id,
            at,
        ) implies {
        let (before, after) = (pool.sessions@[at], final(pool).sessions@[at]);
        &&& taken <==> before.in_flight < maximum
        &&& differ_at(pool.sessions@, final(pool).sessions@, at)
        &&& taken ==> after.in_flight == before.in_flight + 1
        &&& !taken ==> after == before
        &&& after.state == before.state
        &&& after.retire_requested == before.retire_requested
    } by {
        lemma_stands(pool.sessions@, id, at);
    }
}

/// A channel that is given back leaves one fewer, and nothing else changes.
pub proof fn channels_are_given_back(id: u64)
    ensures
        forall|pool: &mut SessionPool, at: int|
            #![trigger call_ensures(SessionPool::release_in_flight, (pool, id), ()),
                stands_at(pool.sessions@, id, at)]
            call_ensures(SessionPool::release_in_flight, (pool, id), ()) && stands_at(
                pool.sessions@,
                id,
                at,
            ) && pool.sessions@[at].in_flight > 0 ==> {
                let (before, after) = (pool.sessions@[at], final(pool).sessions@[at]);
                &&& differ_at(pool.sessions@, final(pool).sessions@, at)
                &&& after.in_flight == before.in_flight - 1
                &&& after.state == before.state
                &&& after.retire_requested == before.retire_requested
            },
{
    assert forall|pool: &mut SessionPool, at: int|
        #![trigger call_ensures(SessionPool::release_in_flight, (pool, id), ()),
            stands_at(pool.sessions@, id, at)]
        call_ensures(SessionPool::release_in_flight, (pool, id), ()) && stands_at(
            pool.sessions@,
            id,
            at,
        ) && pool.sessions@[at].in_flight > 0 implies {
        let (before, after) = (pool.sessions@[at], final(pool).sessions@[at]);
        &&& differ_at(pool.sessions@, final(pool).sessions@, at)
        &&& after.in_flight == before.in_flight - 1
        &&& after.state == before.state
        &&& after.retire_requested == before.retire_requested
    } by {
        lemma_stands(pool.sessions@, id, at);
    }
}

/// While fewer sessions serve than must, none that leaves is drained.
pub proof fn small_pools_drain_nothing(least: usize, timeout: u128, now: u128)
    ensures
        forall|pool: &mut SessionPool, out: Vec<(u64, crate::ssh_pool::SessionDrainDecision)>|
            #[trigger]
            call_ensures(SessionPool::drain_replaced_sessions, (pool, least, timeout, now), out)
                && crate::ssh_pool::serving_count(pool.sessions@) < least ==> {
                &&& final(pool).sessions@ == pool.sessions@
                &&& out@.len() == 0
            },
{
}

/// A session that could not be put out is no longer marked, and keeps the error; the others are
/// left alone.
pub proof fn sessions_that_stay_are_not_marked(id: u64, error: &str)
    ensures
        forall|pool: &mut SessionPool, at: int|
            #![trigger call_ensures(SessionPool::forced_turnover_failed, (pool, id, error), ()),
                stands_at(pool.sessions@, id, at)]
            call_ensures(SessionPool::forced_turnover_failed, (pool, id, error), ()) && stands_at(
                pool.sessions@,
                id,
                at,
            ) ==> {
                let (before, after) = (pool.sessions@[at], final(pool).sessions@[at]);
                &&& differ_at(pool.sessions@, final(pool).sessions@, at)
                &&& !after.state.forced_turnover_requested
                &&& after.state.status == before.state.status
                &&& after.state.last_error is Some
                &&& after.in_flight == before.in_flight
                &&& after.retire_requested == before.retire_requested
            },
{
    assert forall|pool: &mut SessionPool, at: int|
        #![trigger call_ensures(SessionPool::forced_turnover_failed, (pool, id, error), ()),
            stands_at(pool.sessions@, id, at)]
        call_ensures(SessionPool::forced_turnover_failed, (pool, id, error), ()) && stands_at(
            pool.sessions@,
            id,
            at,
        ) implies {
        let (before, after) = (pool.sessions@[at], final(pool).sessions@[at]);
        &&& differ_at(pool.sessions@, final(pool).sessions@, at)
        &&& !after.state.forced_turnover_requested
        &&& after.state.status == before.state.status
        &&& after.state.last_error is Some
        &&& after.in_flight == before.in_flight
        &&& after.retire_requested == before.retire_requested
    } by {
        lemma_stands(pool.sessions@, id, at);
    }
}

/// An exchange that is over asks the old session to leave, and only then; no other session is
/// touched.
pub proof fn exchanged_sessions_are_asked_to_leave(rotation: ScheduledSessionRotation, now: u128)
    ensures
        forall|pool: &mut SessionPool, at: int, progress: ScheduledRotationProgress|
            #![trigger
                call_ensures(
                    SessionPool::advance_scheduled_session_rotation,
                    (pool, rotation, now),
                    progress,
                ),
                stands_at(pool.sessions@, rotation.candidate_session_id, at)]
            call_ensures(
                SessionPool::advance_scheduled_session_rotation,
                (pool, rotation, now),
                progress,
            ) && stands_at(pool.sessions@, rotation.candidate_session_id, at) ==> {
                &&& differ_at(pool.sessions@, final(pool).sessions@, at)
                &&& progress == ScheduledRotationProgress::Activated
                    ==> final(pool).sessions@[at].retire_requested
                &&& progress != ScheduledRotationProgress::Activated
                    ==> final(pool).sessions@ == pool.sessions@
                &&& final(pool).remote_owner == pool.remote_owner
            },
{
    assert forall|pool: &mut SessionPool, at: int, progress: ScheduledRotationProgress|
        #![trigger
            call_ensures(
                SessionPool::advance_scheduled_session_rotation,
                (pool, rotation, now),
                progress,
            ),
            stands_at(pool.sessions@, rotation.candidate_session_id, at)]
        call_ensures(
            SessionPool::advance_scheduled_session_rotation,
            (pool, rotation, now),
            progress,
        ) && stands_at(pool.sessions@, rotation.candidate_session_id, at) implies {
        &&& differ_at(pool.sessions@, final(pool).sessions@, at)
        &&& progress == ScheduledRotationProgress::Activated
            ==> final(pool).sessions@[at].retire_requested
        &&& progress != ScheduledRotationProgress::Activated ==> final(pool).sessions@
            == pool.sessions@
        &&& final(pool).remote_owner == pool.remote_owner
    } by {
        lemma_stands(pool.sessions@, rotation.candidate_session_id, at);
    }
}

// ---------------------------------------------------------------------------
// Hosts
// ---------------------------------------------------------------------------
/// A host is healthy where a serving session has a round-trip time, degraded where some session
/// is not offline, and else offline; how often it was started again is left alone.
pub proof fn hosts_are_as_their_sessions(sessions: Vec<ManagedSession>)
    ensures
        forall|state: &mut SshNodeState| #[trigger]
            call_ensures(SshNodeState::refresh, (state, &sessions), ()) ==> {
                let is_up = exists|i: int|
                    0 <= i < sessions@.len() && (#[trigger] sessions@[i]).state.status
                        != SshSessionStatus::Offline;
                &&& final(state).status == HealthStatus::Healthy <==> best_rtt(sessions@) is Some
                &&& final(state).status == HealthStatus::Degraded <==> best_rtt(sessions@) is None
                    && is_up
                &&& final(state).rtt_millis == best_rtt(sessions@)
                &&& final(state).restart_count == state.restart_count
            },
{
}

/// A connection that went through a host makes it healthy, one that did not makes it degraded and
/// keeps the error; a session that was not to leave and ended is one more start, and one that was
/// is none.
pub proof fn dials_tell_how_a_host_is(millis: u64, error: &str)
    ensures
        forall|state: &mut SshNodeState| #[trigger]
            call_ensures(SshNodeState::on_dialed, (state, millis), ()) ==> {
                &&& final(state).status == HealthStatus::Healthy
                &&& final(state).rtt_millis == Some(millis)
                &&& final(state).last_error is None
                &&& final(state).restart_count == state.restart_count
            },
        forall|state: &mut SshNodeState| #[trigger]
            call_ensures(SshNodeState::on_dial_failure, (state, error), ()) ==> {
                &&& final(state).status == HealthStatus::Degraded
                &&& text_option(final(state).last_error) == Some(error@)
                &&& final(state).restart_count == state.restart_count
            },
        forall|state: &mut SshNodeState| #[trigger]
            call_ensures(SshNodeState::on_session_exit, (state, false, error), ())
                && state.restart_count < u64::MAX ==> {
                &&& final(state).restart_count == state.restart_count + 1
                &&& text_option(final(state).last_error) == Some(error@)
                &&& final(state).status == state.status
            },
        forall|state: &mut SshNodeState| #[trigger]
            call_ensures(SshNodeState::on_session_exit, (state, true, error), ()) ==> *final(state)
                == *state,
{
}

/// A host that failed for a connection is left out from then on, and those that failed before
/// still are; the last error is kept.
pub proof fn failed_hosts_are_left_out(name: &str, error: &str)
    ensures
        forall|attempts: &mut DialAttempts| #[trigger]
            call_ensures(DialAttempts::on_failure, (attempts, name, error), ()) ==> {
                &&& texts(final(attempts).excluded@).contains(name@)
                &&& forall|other: Seq<char>| #[trigger]
                    texts(attempts.excluded@).contains(other) ==> texts(
                        final(attempts).excluded@,
                    ).contains(other)
                &&& text_option(final(attempts).last_error) == Some(error@)
            },
{
    assert forall|attempts: &mut DialAttempts| #[trigger]
        call_ensures(DialAttempts::on_failure, (attempts, name, error), ()) implies {
        &&& texts(final(attempts).excluded@).contains(name@)
        &&& forall|other: Seq<char>| #[trigger]
            texts(attempts.excluded@).contains(other) ==> texts(
                final(attempts).excluded@,
            ).contains(other)
        &&& text_option(final(attempts).last_error) == Some(error@)
    } by {
        let before = texts(attempts.excluded@);
        let after = texts(final(attempts).excluded@);
        if !before.contains(name@) {
            assert(after[before.len() as int] == name@);
            assert forall|other: Seq<char>| #[trigger]
                before.contains(other) implies after.contains(other) by {
                let k = before.index_of(other);
                assert(after[k] == other);
            }
        }
    }
}

/// A balancer takes a host where one is enabled and not offline, and none otherwise; only in turn
/// does it move on.
pub proof fn balancers_take_a_usable_host(hosts: Vec<SshHostState>)
    requires
        hosts@.len() <= usize::MAX,
    ensures
        forall|balancer: &mut LoadBalancer, taken: Option<&SshHostState>| #[trigger]
            call_ensures(LoadBalancer::select, (balancer, &hosts), taken) ==> {
                let has_some = exists|i: int|
                    0 <= i < hosts@.len() && #[trigger] is_usable(hosts@[i]);
                &&& taken is Some <==> has_some
                &&& taken is Some ==> is_usable(*taken->0) && hosts@.contains(*taken->0)
                &&& final(balancer).policy == balancer.policy
                &&& balancer.policy != LoadBalancePolicy::RoundRobin ==> final(balancer).next
                    == balancer.next
                &&& balancer.policy == LoadBalancePolicy::RoundRobin && taken is Some
                    && balancer.next < usize::MAX ==> final(balancer).next == balancer.next + 1
            },
{
    lemma_candidate_positions(hosts@);
    assert forall|balancer: &mut LoadBalancer, taken: Option<&SshHostState>| #[trigger]
        call_ensures(LoadBalancer::select, (balancer, &hosts), taken) implies {
        let has_some = exists|i: int| 0 <= i < hosts@.len() && #[trigger] is_usable(hosts@[i]);
        &&& taken is Some <==> has_some
        &&& taken is Some ==> is_usable(*taken->0) && hosts@.contains(*taken->0)
        &&& final(balancer).policy == balancer.policy
        &&& balancer.policy != LoadBalancePolicy::RoundRobin ==> final(balancer).next
            == balancer.next
        &&& balancer.policy == LoadBalancePolicy::RoundRobin && taken is Some && balancer.next
            < usize::MAX ==> final(balancer).next == balancer.next + 1
    } by {
        if taken is Some {
            let k = choose|k: int| #[trigger]
                is_choice(balancer.policy, balancer.next, hosts@, k) && *taken->0
                    == hosts@[candidate_positions(hosts@)[k] as int];
            let p = candidate_positions(hosts@)[k] as int;
            only_usable_hosts_are_chosen(balancer.policy, balancer.next, hosts@, k, 0);
            assert(is_usable(hosts@[p]));
        }
        if exists|i: int| 0 <= i < hosts@.len() && #[trigger] is_usable(hosts@[i]) {
            let i = choose|i: int| 0 <= i < hosts@.len() && #[trigger] is_usable(hosts@[i]);
            lemma_usable_is_candidate(hosts@, i);
        }
    }
}

/// Whether a host can be taken.
pub open spec fn is_usable(host: SshHostState) -> bool {
    host.enabled && host.status != HealthStatus::Offline
}

proof fn lemma_usable_is_candidate(hosts: Seq<SshHostState>, i: int)
    requires
        0 <= i < hosts.len(),
        is_usable(hosts[i]),
    ensures
        candidate_positions(hosts).len() > 0,
    decreases hosts.len(),
{
    if i < hosts.len() - 1 {
        assert(hosts.drop_last()[i] == hosts[i]);
        lemma_usable_is_candidate(hosts.drop_last(), i);
    }
}

// ---------------------------------------------------------------------------
// Listeners and connections
// ---------------------------------------------------------------------------
/// A listener that fails waits for as long as it was to, and twice as long the next time, up to
/// the longest wait; one that listens starts over with the first wait.
pub proof fn failing_listeners_wait_longer()
    ensures
        forall|retry: &mut ListenerRetry, wait: u128| #[trigger]
            call_ensures(ListenerRetry::on_failure, (retry,), wait) ==> {
                &&& wait == retry.delay
                &&& 2 * retry.delay <= retry.maximum ==> final(retry).delay == 2 * retry.delay
                &&& 2 * retry.delay > retry.maximum ==> final(retry).delay == retry.maximum
                &&& final(retry).initial == retry.initial
                &&& final(retry).maximum == retry.maximum
            },
        forall|retry: &mut ListenerRetry| #[trigger]
            call_ensures(ListenerRetry::on_listening, (retry,), ()) ==> {
                &&& final(retry).delay == retry.initial
                &&& final(retry).initial == retry.initial
                &&& final(retry).maximum == retry.maximum
            },
{
}

/// Every connection gets the number behind that of the one before it.
pub proof fn connections_are_numbered()
    ensures
        forall|ids: &mut ConnectionIds, id: u64| #[trigger]
            call_ensures(ConnectionIds::next_connection_id, (ids,), id) && ids.next < u64::MAX ==> {
                &&& id == ids.next
                &&& final(ids).next == id + 1
            },
{
}

/// A transport that is cut off wakes whoever waits for it, refuses what comes then, and nobody
/// waits behind it; one whose handshake is over is left alone.
pub proof fn cut_transports_wake_their_waiters()
    ensures
        forall|guard: &mut HandshakeGuard, woken: Wakeups| #[trigger]
            call_ensures(HandshakeGuard::abort, (guard,), woken) && guard.status
                == HandshakeStatus::Armed ==> {
                &&& woken.reader == guard.reader_waits
                &&& woken.writer == guard.writer_waits
                &&& final(guard).status == HandshakeStatus::Aborted
                &&& !final(guard).reader_waits
                &&& !final(guard).writer_waits
            },
        forall|guard: &mut HandshakeGuard, woken: Wakeups| #[trigger]
            call_ensures(HandshakeGuard::abort, (guard,), woken) && guard.status
                == HandshakeStatus::Disarmed ==> *final(guard) == *guard,
        forall|guard: &mut HandshakeGuard, aborted: bool| #[trigger]
            call_ensures(HandshakeGuard::register, (guard, HandshakeSide::Read), aborted)
                && guard.status == HandshakeStatus::Armed ==> {
                &&& !aborted
                &&& final(guard).reader_waits
                &&& final(guard).writer_waits == guard.writer_waits
                &&& final(guard).status == HandshakeStatus::Armed
            },
        forall|guard: &mut HandshakeGuard, aborted: bool| #[trigger]
            call_ensures(HandshakeGuard::register, (guard, HandshakeSide::Write), aborted)
                && guard.status == HandshakeStatus::Armed ==> {
                &&& !aborted
                &&& final(guard).writer_waits
                &&& final(guard).reader_waits == guard.reader_waits
                &&& final(guard).status == HandshakeStatus::Armed
            },
        forall|guard: &mut HandshakeGuard, side: HandshakeSide, aborted: bool| #[trigger]
            call_ensures(HandshakeGuard::register, (guard, side), aborted) && guard.status
                == HandshakeStatus::Aborted ==> aborted,
{
}

/// A value that is put under a new name is found there, and every other name stands for what it
/// did; a name that is taken keeps its value.
pub proof fn values_are_kept_by_name<T>(name: String, value: T)
    ensures
        forall|map: &mut NamedMap<T>, inserted: bool| #[trigger]
            call_ensures(NamedMap::<T>::insert, (map, name, value), inserted) && map.wf() ==> {
                &&& inserted <==> value_of(map.entries@, name@) is None
                &&& inserted ==> value_of(final(map).entries@, name@) == Some(value)
                &&& !inserted ==> final(map).entries@ == map.entries@
                &&& forall|other: Seq<char>|
                    other != name@ ==> #[trigger] value_of(final(map).entries@, other) == value_of(
                        map.entries@,
                        other,
                    )
            },
{
    assert forall|map: &mut NamedMap<T>, inserted: bool| #[trigger]
        call_ensures(NamedMap::<T>::insert, (map, name, value), inserted) && map.wf() implies {
        &&& inserted <==> value_of(map.entries@, name@) is None
        &&& inserted ==> value_of(final(map).entries@, name@) == Some(value)
        &&& !inserted ==> final(map).entries@ == map.entries@
        &&& forall|other: Seq<char>|
            other != name@ ==> #[trigger] value_of(final(map).entries@, other) == value_of(
                map.entries@,
                other,
            )
    } by {
        if inserted {
            let at = choose|at: int|
                0 <= at <= map.entries@.len() && final(map).entries@
                    == #[trigger] map.entries@.insert(
                    at,
                    crate::named::Named { name, value },
                );
            crate::named::insert_then_get(map.entries@, at, name, value, name@);
            assert forall|other: Seq<char>| other != name@ implies #[trigger] value_of(
                final(map).entries@,
                other,
            ) == value_of(map.entries@, other) by {
                crate::named::insert_then_get(map.entries@, at, name, value, other);
            }
        }
    }
}

// ---------------------------------------------------------------------------
// Remote forwards
// ---------------------------------------------------------------------------
/// A forward that the host registered counts as registered and listens with the session that
/// holds it; one that it did not fails, is held by none, and is to be cancelled where the host
/// did not answer in time.
pub proof fn registered_forwards_listen(upstream: SshHostConfig, owner: u64, reply: RemoteReply)
    ensures
        forall|registration: &mut RemoteRegistration, update: TunnelUpdate| #[trigger]
            call_ensures(
                RemoteRegistration::on_registered,
                (registration, &upstream, owner, &reply),
                update,
            ) ==> {
                &&& reply is Done ==> final(registration).registered == registration.registered + 1
                &&& !(reply is Done) ==> final(registration).registered == registration.registered
                &&& reply is Done <==> final(registration).failure is None
                &&& reply is TimedOut <==> final(registration).cancel_pending
                &&& reply is Done ==> update.status == TunnelRuntimeStatus::Listening
                    && update.owner_session == Some(owner) && update.error is None
                &&& !(reply is Done) ==> update.status == TunnelRuntimeStatus::Error
                    && update.owner_session is None && update.error is Some
                &&& update.tunnel_id@ == forward_tunnel(
                    upstream.name@,
                    upstream.remote_forwards@[registration.registered as int].forward(),
                )
            },
{
    assert forall|registration: &mut RemoteRegistration, update: TunnelUpdate| #[trigger]
        call_ensures(
            RemoteRegistration::on_registered,
            (registration, &upstream, owner, &reply),
            update,
        ) implies {
        &&& reply is Done ==> final(registration).registered == registration.registered + 1
        &&& !(reply is Done) ==> final(registration).registered == registration.registered
        &&& reply is Done <==> final(registration).failure is None
        &&& reply is TimedOut <==> final(registration).cancel_pending
        &&& reply is Done ==> update.status == TunnelRuntimeStatus::Listening
            && update.owner_session == Some(owner) && update.error is None
        &&& !(reply is Done) ==> update.status == TunnelRuntimeStatus::Error
            && update.owner_session is None && update.error is Some
        &&& update.tunnel_id@ == forward_tunnel(
            upstream.name@,
            upstream.remote_forwards@[registration.registered as int].forward(),
        )
    } by {
        assert(update.update().tunnel_id == update.tunnel_id@);
        assert(update.update().status == update.status);
        assert(update.update().owner_session == update.owner_session);
        assert(update.update().error == text_option(update.error));
    }
}

/// A forward that is rolled back is one more, and none that is registered stays listening: it
/// is shown as failed and held by none.
pub proof fn rolled_back_forwards_do_not_listen(upstream: SshHostConfig, reply: RemoteReply)
    ensures
        forall|registration: &mut RemoteRegistration, update: TunnelUpdate| #[trigger]
            call_ensures(
                RemoteRegistration::on_rolled_back,
                (registration, &upstream, &reply),
                update,
            ) && registration.rolled_back < usize::MAX ==> {
                &&& final(registration).rolled_back == registration.rolled_back + 1
                &&& final(registration).registered == registration.registered
                &&& final(registration).failure == registration.failure
                &&& update.status == TunnelRuntimeStatus::Error
                &&& update.owner_session is None
                &&& update.error is Some
                &&& update.tunnel_id@ == forward_tunnel(
                    upstream.name@,
                    upstream.remote_forwards@[registration.rolled_back as int].forward(),
                )
            },
        forall|registration: &mut RemoteRegistration| #[trigger]
            call_ensures(RemoteRegistration::on_cancelled, (registration,), ()) ==> {
                &&& !final(registration).cancel_pending
                &&& final(registration).registered == registration.registered
                &&& final(registration).failure == registration.failure
                &&& final(registration).rolled_back == registration.rolled_back
            },
{
    assert forall|registration: &mut RemoteRegistration, update: TunnelUpdate| #[trigger]
        call_ensures(
            RemoteRegistration::on_rolled_back,
            (registration, &upstream, &reply),
            update,
        ) && registration.rolled_back < usize::MAX implies {
        &&& final(registration).rolled_back == registration.rolled_back + 1
        &&& final(registration).registered == registration.registered
        &&& final(registration).failure == registration.failure
        &&& update.status == TunnelRuntimeStatus::Error
        &&& update.owner_session is None
        &&& update.error is Some
        &&& update.tunnel_id@ == forward_tunnel(
            upstream.name@,
            upstream.remote_forwards@[registration.rolled_back as int].forward(),
        )
    } by {
        assert(update.update().tunnel_id == update.tunnel_id@);
        assert(update.update().status == update.status);
        assert(update.update().owner_session == update.owner_session);
        assert(update.update().error == text_option(update.error));
    }
}

/// A session holds the remote forwards once they are registered with it, and only then; who held
/// them keeps them otherwise.
pub proof fn registration_makes_the_holder(to: u64, error: Option<String>)
    ensures
        forall|pool: &mut SessionPool, step: HandoverStep| #[trigger]
            call_ensures(SessionPool::on_forwards_registered, (pool, to, &error), step) ==> {
                &&& error is None ==> final(pool).remote_owner == Some(to)
                &&& error is Some ==> final(pool).remote_owner == pool.remote_owner
                &&& error is None <==> step is Settled
                &&& final(pool).sessions@ == pool.sessions@
            },
        forall|pool: &mut SessionPool| #[trigger]
            call_ensures(SessionPool::set_remote_owner, (pool, Some(to)), ()) ==> {
                &&& final(pool).remote_owner == Some(to)
                &&& final(pool).sessions@ == pool.sessions@
            },
{
    assert forall|pool: &mut SessionPool, step: HandoverStep| #[trigger]
        call_ensures(SessionPool::on_forwards_registered, (pool, to, &error), step) implies {
        &&& error is None ==> final(pool).remote_owner == Some(to)
        &&& error is Some ==> final(pool).remote_owner == pool.remote_owner
        &&& error is None <==> step is Settled
        &&& final(pool).sessions@ == pool.sessions@
    } by {
        assert(step is Settled <==> step.step() is Settled);
    }
}

// ---------------------------------------------------------------------------
// The manager
// ---------------------------------------------------------------------------
/// After a handover that failed the next one is tried once the time between two starts is over;
/// after sleep the sessions are given two seconds.
pub proof fn managers_wait_before_they_try_again(now: u128, refreshed: ConnectivitySnapshot)
    requires
        now <= DURATION_MAX,
    ensures
        forall|manager: &mut SessionManager| #[trigger]
            call_ensures(SessionManager::owner_attempt_failed, (manager, now), ())
                && manager.wf() ==> {
                &&& final(manager).next_owner_attempt == now + manager.policy.spawn_cooldown
                &&& final(manager).policy == manager.policy
                &&& final(manager).backoff == manager.backoff
                &&& final(manager).next_spawn_at == manager.next_spawn_at
            },
        forall|manager: &mut SessionManager, ticker: Ticker| #[trigger]
            call_ensures(SessionManager::on_resume_gap, (manager, refreshed, now), ticker) ==> {
                &&& final(manager).connectivity == refreshed
                &&& final(manager).resume_settle_until == Some((now + 2_000_000_000) as u128)
                &&& final(manager).policy == manager.policy
                &&& final(manager).backoff == manager.backoff
            },
{
}

/// A manager starts with as many sessions as the pool must hold, two at most at once and none
/// without a network; the others are owed. It wants as many as the pool must hold, waits for
/// nothing, and plans the first exchange for the end of the first interval.
pub proof fn managers_start_at_once(
    policy: ManagerPolicy,
    connectivity: ConnectivitySnapshot,
    now: u128,
    started: (SessionManager, usize, Ticker),
)
    requires
        call_ensures(SessionManager::start, (policy, connectivity, now), started),
        policy.wf(),
        now <= DURATION_MAX,
    ensures
        connectivity.availability == NetworkAvailability::Offline ==> started.1 == 0,
        connectivity.availability != NetworkAvailability::Offline && policy.min_sessions >= 2
            ==> started.1 == 2,
        connectivity.availability != NetworkAvailability::Offline && policy.min_sessions < 2
            ==> started.1 == policy.min_sessions,
        started.0.startup_spawn_budget + started.1 == policy.min_sessions,
        started.0.desired_sessions == policy.min_sessions,
        started.0.policy == policy,
        started.0.connectivity == connectivity,
        started.0.backoff == policy.initial_backoff,
        started.0.next_spawn_at == now,
        started.0.next_owner_attempt == now,
        !started.0.demand_pending,
        started.0.scheduled_rotation is None,
        started.0.high_pressure_since is None,
        started.0.low_pressure_since is None,
        policy.rotation_interval is None <==> started.0.next_rotation_at is None,
        policy.rotation_interval is Some ==> started.0.next_rotation_at->0 == now
            + policy.rotation_interval->0,
        started.2.delay == 0,
{
}

/// A start that failed is followed by the next one after the delay, and the delay is twice as
/// long then, up to the longest; a start is not tried before.
pub proof fn failed_starts_are_waited_for(running: bool, now: u128)
    requires
        now <= DURATION_MAX,
    ensures
        forall|manager: &mut SessionManager, ticker: Ticker| #[trigger]
            call_ensures(SessionManager::on_task_failure, (manager, running, now), ticker)
                && manager.wf() ==> {
                &&& final(manager).next_spawn_at == now + manager.backoff
                &&& 2 * manager.backoff <= manager.policy.max_backoff ==> final(manager).backoff
                    == 2 * manager.backoff
                &&& 2 * manager.backoff > manager.policy.max_backoff ==> final(manager).backoff
                    == manager.policy.max_backoff
                &&& final(manager).policy == manager.policy
                &&& final(manager).desired_sessions == manager.desired_sessions
            },
{
}

/// A round begins with the network as it is. The time that the sessions were given after sleep
/// ends at its deadline and not before; a fresh look at the network is wanted where the machine
/// is offline and remote forwards wait.
pub proof fn rounds_begin_with_the_network(current: ConnectivitySnapshot, now: u128)
    ensures
        forall|manager: &mut SessionManager, looks: bool| #[trigger]
            call_ensures(SessionManager::on_tick_connectivity, (manager, current, now), looks)
                ==> {
                let settle = manager.resume_settle_until;
                &&& looks <==> current.availability == NetworkAvailability::Offline
                    && manager.policy.requires_remote_availability
                &&& final(manager).connectivity == current
                &&& settle is Some && now < settle->0 ==> final(manager).resume_settle_until
                    == settle
                &&& settle is Some && now >= settle->0 ==> final(manager).resume_settle_until
                    is None
                &&& settle is None ==> final(manager).resume_settle_until is None
            },
        forall|manager: &mut SessionManager, slept: bool| #[trigger]
            call_ensures(SessionManager::begin_tick, (manager, true, now), slept) ==> {
                &&& slept <==> manager.connectivity.availability != NetworkAvailability::Offline
                    && now - manager.last_tick >= 5_000_000_000
                &&& final(manager).last_tick == now
                &&& final(manager).connectivity == manager.connectivity
            },
        forall|manager: &mut SessionManager, ticker: Option<Ticker>| #[trigger]
            call_ensures(SessionManager::on_offline_refresh, (manager, Some(current)), ticker)
                ==> {
                &&& final(manager).connectivity == current
                &&& ticker is Some <==> current.availability == NetworkAvailability::Offline
            },
{
}

} // verus!
