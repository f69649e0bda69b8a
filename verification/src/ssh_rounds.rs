//! What the rounds of maintenance of a pool come to: when it grows, when it shrinks, and when a
//! session is exchanged for a new one. Times and durations are nanoseconds.
use crate::network::{ConnectivitySnapshot, NetworkAvailability};
use crate::ssh_manager::{after_connectivity_change, after_demand, after_session_exit, count,
    is_round, serving_in_flight, slept, some_leaving, some_put_out, Kind, PoolCounts,
    SessionManager, TickPlan};
use crate::ssh_policy::DURATION_MAX;
use crate::ssh_pool::{is_newest_idle, is_oldest_serving, lemma_session_index, serving_count,
    session_index, ManagedSession, ScheduledSessionRotation, SshSessionStatus};
use vstd::prelude::*;

verus! {

/// A round of maintenance: the manager and the sessions before and after it, and what it
/// decided.
pub ghost struct Round {
    pub before: SessionManager,
    pub sessions: Seq<ManagedSession>,
    pub owner: Option<u64>,
    pub counts: PoolCounts,
    pub oldest: Option<u64>,
    pub newest_idle: Option<u64>,
    pub session_id: u64,
    pub now: u128,
    pub after: SessionManager,
    pub plan: TickPlan,
    pub left: Seq<ManagedSession>,
}

impl Round {
    /// The round is one that the manager makes.
    pub open spec fn holds(self) -> bool {
        &&& self.before.wf()
        &&& self.now <= DURATION_MAX
        &&& self.counts.of(self.sessions)
        &&& is_oldest_serving(self.sessions, self.oldest)
        &&& is_newest_idle(
            self.sessions,
            self.owner,
            self.before.policy.min_sessions,
            self.newest_idle,
        )
        &&& is_round(
            self.before,
            self.sessions,
            self.counts,
            self.oldest,
            self.newest_idle,
            self.session_id,
            self.now,
            self.after,
            self.plan,
            self.left,
        )
    }

    /// Every session is healthy and is to stay, and has as many channels open as `least` and
    /// `most` say.
    pub open spec fn serves_with(self, least: int, most: int) -> bool {
        &&& self.sessions.len() > 0
        &&& self.sessions.len() * self.before.policy.max_channels <= usize::MAX
        &&& forall|i: int|
            0 <= i < self.sessions.len() ==> {
                &&& (#[trigger] self.sessions[i]).state.status == SshSessionStatus::Healthy
                &&& !self.sessions[i].retire_requested
                &&& !self.sessions[i].state.forced_turnover_requested
                &&& least <= self.sessions[i].in_flight <= most
            }
    }

    /// No exchange of a session is planned, and none is due.
    pub open spec fn without_exchange(self) -> bool {
        &&& self.before.scheduled_rotation is None
        &&& self.before.next_rotation_at matches Some(at) ==> self.now < at
    }
}

/// Counts of sessions that all serve.
proof fn lemma_all_serve(sessions: Seq<ManagedSession>, least: int, most: int)
    requires
        0 <= least,
        forall|i: int|
            0 <= i < sessions.len() ==> {
                &&& (#[trigger] sessions[i]).state.status == SshSessionStatus::Healthy
                &&& !sessions[i].retire_requested
                &&& !sessions[i].state.forced_turnover_requested
                &&& least <= sessions[i].in_flight <= most
            },
    ensures
        count(sessions, Kind::Active) == sessions.len(),
        count(sessions, Kind::ActiveStaying) == sessions.len(),
        count(sessions, Kind::ActiveLeaving) == 0,
        count(sessions, Kind::Connecting) == 0,
        serving_count(sessions) == sessions.len(),
        sessions.len() * least <= serving_in_flight(sessions) <= sessions.len() * most,
        !some_leaving(sessions),
        !some_put_out(sessions),
    decreases sessions.len(),
{
    if sessions.len() > 0 {
        let front = sessions.drop_last();
        assert forall|i: int| 0 <= i < front.len() implies {
            &&& (#[trigger] front[i]).state.status == SshSessionStatus::Healthy
            &&& !front[i].retire_requested
            &&& !front[i].state.forced_turnover_requested
            &&& least <= front[i].in_flight <= most
        } by {
            assert(front[i] == sessions[i]);
        }
        lemma_all_serve(front, least, most);
        assert(sessions.last() == sessions[sessions.len() - 1]);
        assert(sessions.len() * least == front.len() * least + least) by (nonlinear_arith)
            requires
                sessions.len() == front.len() + 1,
        ;
        assert(sessions.len() * most == front.len() * most + most) by (nonlinear_arith)
            requires
                sessions.len() == front.len() + 1,
        ;
    } else {
        assert(0 * least == 0 && 0 * most == 0) by (nonlinear_arith);
    }
}

/// A pool whose serving sessions all have every channel open wants one session more, and starts
/// it, once that has been so for two seconds, up to as many sessions as the pool may hold.
pub proof fn full_pools_grow(round: Round, full_since: u128)
    requires
        round.holds(),
        round.serves_with(round.before.policy.max_channels as int, usize::MAX as int),
        round.without_exchange(),
        round.before.desired_sessions <= round.sessions.len() < round.before.policy.max_sessions,
        round.before.high_pressure_since == Some(full_since),
        round.now >= full_since + 2_000_000_000,
        round.now >= round.before.next_spawn_at,
    ensures
        round.plan.spawn == Some(round.session_id),
        round.after.desired_sessions == round.before.desired_sessions + 1,
        round.after.high_pressure_since is None,
        round.after.next_spawn_at == round.now + round.before.policy.spawn_cooldown,
        round.plan.retire is None,
        round.left == round.sessions,
{
    let m = round.before.policy.max_channels as int;
    let n = round.sessions.len() as int;
    lemma_all_serve(round.sessions, m, usize::MAX as int);
    assert(n * m >= 0) by (nonlinear_arith)
        requires
            n >= 0,
            m >= 0,
    ;
    assert(4 * round.counts.in_flight >= 3 * (round.counts.healthy
        * round.before.policy.max_channels));
}

/// While all channels are open, the time since when is kept, and the pool does not grow before
/// two seconds are over.
pub proof fn full_pools_wait_two_seconds(round: Round)
    requires
        round.holds(),
        round.serves_with(round.before.policy.max_channels as int, usize::MAX as int),
        round.without_exchange(),
        round.before.high_pressure_since matches Some(since) ==> round.now < since
            + 2_000_000_000,
    ensures
        round.after.desired_sessions == round.before.desired_sessions,
        round.after.high_pressure_since == Some(
            match round.before.high_pressure_since {
                Some(since) => since,
                None => round.now,
            },
        ),
{
    let m = round.before.policy.max_channels as int;
    let n = round.sessions.len() as int;
    lemma_all_serve(round.sessions, m, usize::MAX as int);
    assert(n * m >= 0) by (nonlinear_arith)
        requires
            n >= 0,
            m >= 0,
    ;
    assert(4 * round.counts.in_flight >= 3 * (round.counts.healthy
        * round.before.policy.max_channels));
}

/// Two rounds, two seconds or more apart, that both find every channel open: the second wants
/// one session more than the first found wanted.
pub proof fn sustained_pressure_adds_a_session(first: Round, second: Round)
    requires
        first.holds(),
        second.holds(),
        second.before == first.after,
        first.before.high_pressure_since is None,
        first.serves_with(first.before.policy.max_channels as int, usize::MAX as int),
        second.serves_with(second.before.policy.max_channels as int, usize::MAX as int),
        first.without_exchange(),
        second.without_exchange(),
        first.before.desired_sessions <= second.sessions.len()
            < first.before.policy.max_sessions,
        second.now >= first.now + 2_000_000_000,
        second.now >= first.after.next_spawn_at,
    ensures
        second.plan.spawn == Some(second.session_id),
        second.after.desired_sessions == first.before.desired_sessions + 1,
{
    full_pools_wait_two_seconds(first);
    full_pools_grow(second, first.now);
}

/// A pool whose sessions all have fewer than three of four channels open forgets earlier
/// pressure, and does not grow.
pub proof fn calm_pools_do_not_grow(round: Round, most: int)
    requires
        round.holds(),
        round.serves_with(0, most),
        4 * most < 3 * round.before.policy.max_channels,
        round.without_exchange(),
    ensures
        round.after.high_pressure_since is None,
        round.after.desired_sessions <= round.before.desired_sessions,
        round.sessions.len() >= round.before.desired_sessions ==> round.plan.spawn is None,
{
    let m = round.before.policy.max_channels as int;
    let n = round.sessions.len() as int;
    lemma_all_serve(round.sessions, 0, most);
    assert(n * 0 == 0 && 4 * (n * most) < 3 * (n * m)) by (nonlinear_arith)
        requires
            n > 0,
            4 * most < 3 * m,
    ;
    assert(4 * round.counts.in_flight < 3 * (round.counts.healthy
        * round.before.policy.max_channels));
}

/// A pool that has been idle for five minutes, with more sessions than it must hold, gives up
/// its newest session that does not hold the remote forwards: that one, and no other, is to
/// leave, one session less is wanted, and the next step comes half a minute later.
pub proof fn idle_pools_shrink(round: Round, idle_since: u128, newest: int)
    requires
        round.holds(),
        round.serves_with(0, 0),
        round.before.policy.max_channels > 0,
        round.without_exchange(),
        round.sessions.len() > round.before.policy.min_sessions,
        round.before.desired_sessions > round.before.policy.min_sessions,
        round.before.low_pressure_since == Some(idle_since),
        round.now >= idle_since + 300_000_000_000,
        round.before.next_scale_down_at matches Some(at) ==> round.now >= at,
        0 <= newest < round.sessions.len(),
        round.owner != Some(round.sessions[newest].id),
        forall|i: int|
            0 <= i < round.sessions.len() && i != newest && round.owner != Some(
                (#[trigger] round.sessions[i]).id,
            ) ==> round.sessions[i].id < round.sessions[newest].id,
    ensures
        round.plan.retire == Some(round.sessions[newest].id),
        round.after.desired_sessions == round.before.desired_sessions - 1,
        round.after.next_scale_down_at == Some((round.now + 30_000_000_000) as u128),
        round.left.len() == round.sessions.len(),
        round.left[newest].retire_requested,
        round.left[newest].state.retirement_started == Some(round.now),
        forall|i: int|
            0 <= i < round.sessions.len() && i != newest ==> round.left[i] == round.sessions[i],
{
    let m = round.before.policy.max_channels as int;
    let n = round.sessions.len() as int;
    lemma_all_serve(round.sessions, 0, 0);
    assert(n * m >= m && (n - 1) * m == n * m - m) by (nonlinear_arith)
        requires
            n > 0,
            m > 0,
    ;
    let id = round.sessions[newest].id;
    assert(crate::ssh_pool::is_idle_elastic(round.sessions[newest], round.owner));
    assert(round.newest_idle is Some);
    let k = choose|k: int|
        0 <= k < round.sessions.len() && crate::ssh_pool::is_idle_elastic(
            #[trigger] round.sessions[k],
            round.owner,
        ) && round.sessions[k].id == round.newest_idle->0;
    assert(k == newest);
    lemma_session_index(round.sessions, id);
    let at = session_index(round.sessions, id);
    assert(at <= newest);
    assert(round.sessions[at].id == id);
    assert(at == newest);
}

/// A pool that is idle for less than five minutes keeps its sessions.
pub proof fn idle_pools_wait_five_minutes(round: Round)
    requires
        round.holds(),
        round.before.low_pressure_since matches Some(since) ==> round.now < since
            + 300_000_000_000,
    ensures
        round.plan.retire is None,
        round.after.desired_sessions >= round.before.desired_sessions,
{
}

/// Where fewer sessions are there than are wanted, a round starts one, as soon as the time for
/// it has come and with a session that serves or another reason to start one.
pub proof fn missing_sessions_are_started(round: Round)
    requires
        round.holds(),
        round.before.scheduled_rotation is None,
        round.sessions.len() < round.before.desired_sessions,
        round.now >= round.before.next_spawn_at,
        round.serves_with(0, usize::MAX as int) || (round.sessions.len() == 0
            && round.before.connectivity.availability != NetworkAvailability::Offline && (
        round.before.demand_pending || round.before.policy.requires_remote_availability
            || round.before.startup_spawn_budget > 0)),
    ensures
        round.plan.spawn == Some(round.session_id),
        round.after.desired_sessions <= round.before.desired_sessions,
        round.after.next_spawn_at == round.now + round.before.policy.spawn_cooldown,
{
    if round.sessions.len() > 0 {
        lemma_all_serve(round.sessions, 0, usize::MAX as int);
    }
}

/// When the time for an exchange has come, the oldest session is the one to be exchanged, a new
/// session is started for it, and the next exchange comes after the interval of the pool.
pub proof fn exchanges_begin_with_the_oldest(round: Round, due: u128, interval: u128, first: int)
    requires
        round.holds(),
        round.serves_with(0, usize::MAX as int),
        round.before.scheduled_rotation is None,
        round.before.next_rotation_at == Some(due),
        round.before.policy.rotation_interval == Some(interval),
        round.now >= due,
        round.now >= round.before.next_spawn_at,
        round.before.policy.min_sessions <= round.sessions.len()
            < round.before.policy.max_sessions,
        0 <= first < round.sessions.len(),
        forall|i: int|
            0 <= i < round.sessions.len() ==> round.sessions[first].id <= (
            #[trigger] round.sessions[i]).id,
    ensures
        round.plan.spawn == Some(round.session_id),
        round.after.scheduled_rotation == Some(
            ScheduledSessionRotation {
                candidate_session_id: round.sessions[first].id,
                replacement_session_id: Some(round.session_id),
            },
        ),
        round.after.next_rotation_at == Some((round.now + interval) as u128),
        round.after.desired_sessions == round.before.desired_sessions,
        round.left == round.sessions,
{
    lemma_all_serve(round.sessions, 0, usize::MAX as int);
    assert(round.sessions[first].serves());
    let k = choose|k: int|
        0 <= k < round.sessions.len() && (#[trigger] round.sessions[k]).serves()
            && round.sessions[k].id == round.oldest->0;
    assert(round.sessions[k].id >= round.sessions[first].id);
    assert(round.oldest == Some(round.sessions[first].id));
}

/// Once the new session of an exchange serves, the old one, and no other, is to leave, and the
/// exchange is over.
pub proof fn exchanges_end_with_the_old_session(round: Round, old_at: int, new_at: int)
    requires
        round.holds(),
        round.serves_with(0, usize::MAX as int),
        round.before.policy.min_sessions <= round.sessions.len(),
        0 <= old_at < round.sessions.len(),
        0 <= new_at < round.sessions.len(),
        forall|i: int, j: int|
            0 <= i < round.sessions.len() && 0 <= j < round.sessions.len() && i != j ==> (
            #[trigger] round.sessions[i]).id != (#[trigger] round.sessions[j]).id,
        round.before.scheduled_rotation == Some(
            ScheduledSessionRotation {
                candidate_session_id: round.sessions[old_at].id,
                replacement_session_id: Some(round.sessions[new_at].id),
            },
        ),
    ensures
        round.after.scheduled_rotation is None,
        round.plan.retire is None,
        round.left.len() == round.sessions.len(),
        round.left[old_at].retire_requested,
        round.left[old_at].state.retirement_started == Some(round.now),
        forall|i: int|
            0 <= i < round.sessions.len() && i != old_at ==> round.left[i] == round.sessions[i],
{
    lemma_all_serve(round.sessions, 0, usize::MAX as int);
    let (old_id, new_id) = (round.sessions[old_at].id, round.sessions[new_at].id);
    lemma_session_index(round.sessions, old_id);
    lemma_session_index(round.sessions, new_id);
    assert(session_index(round.sessions, old_id) == old_at);
    assert(session_index(round.sessions, new_id) == new_at);
    assert(round.sessions[new_at].serves());
}

/// While the new session of an exchange does not serve yet, or has not been started, the old one
/// stays, and no other session is given up for it.
pub proof fn exchanges_keep_the_old_session_until_then(round: Round)
    requires
        round.holds(),
        round.before.scheduled_rotation matches Some(planned) && (
        planned.replacement_session_id matches Some(id) ==> forall|i: int|
            0 <= i < round.sessions.len() && (#[trigger] round.sessions[i]).id == id
                ==> round.sessions[i].state.status != SshSessionStatus::Healthy),
        round.before.policy.min_sessions <= serving_count(round.sessions),
        exists|i: int|
            0 <= i < round.sessions.len() && Some((#[trigger] round.sessions[i]).id) == match
            round.before.scheduled_rotation {
                Some(planned) => Some(planned.candidate_session_id),
                None => None,
            },
    ensures
        round.left == round.sessions,
        round.after.scheduled_rotation matches Some(planned)
            && planned.candidate_session_id
            == round.before.scheduled_rotation->0.candidate_session_id,
        round.plan.retire is None,
{
    let planned = round.before.scheduled_rotation->0;
    lemma_session_index(round.sessions, planned.candidate_session_id);
    if planned.replacement_session_id is Some {
        lemma_session_index(round.sessions, planned.replacement_session_id->0);
    }
}

/// In a pool whose sessions all serve, none is put out, and others are drained only while as
/// many sessions serve as are wanted.
pub proof fn serving_pools_put_nobody_out(round: Round)
    requires
        round.holds(),
        round.serves_with(0, usize::MAX as int),
        round.sessions.len() <= round.before.policy.max_sessions,
    ensures
        !round.plan.force_turnover,
        round.plan.drain_minimum == round.after.desired_sessions,
{
    lemma_all_serve(round.sessions, 0, usize::MAX as int);
}

/// Counts of sessions that all are to leave.
proof fn lemma_all_leave(sessions: Seq<ManagedSession>)
    requires
        forall|i: int|
            0 <= i < sessions.len() ==> {
                &&& (#[trigger] sessions[i]).state.status != SshSessionStatus::Offline
                &&& sessions[i].retire_requested
                &&& !sessions[i].state.forced_turnover_requested
            },
    ensures
        count(sessions, Kind::Active) == sessions.len(),
        count(sessions, Kind::ActiveStaying) == 0,
        count(sessions, Kind::ActiveLeaving) == sessions.len(),
        count(sessions, Kind::Connecting) == 0,
        serving_count(sessions) == 0,
        sessions.len() > 0 ==> some_leaving(sessions),
        !some_put_out(sessions),
    decreases sessions.len(),
{
    if sessions.len() > 0 {
        let front = sessions.drop_last();
        assert forall|i: int| 0 <= i < front.len() implies {
            &&& (#[trigger] front[i]).state.status != SshSessionStatus::Offline
            &&& front[i].retire_requested
            &&& !front[i].state.forced_turnover_requested
        } by {
            assert(front[i] == sessions[i]);
        }
        lemma_all_leave(front);
        assert(sessions.last() == sessions[sessions.len() - 1]);
    }
}

/// Where the pool holds as many sessions as it may, and all of them are to leave, one is put out
/// to make room.
pub proof fn leaving_pools_put_a_session_out(round: Round)
    requires
        round.holds(),
        round.sessions.len() > 0,
        round.sessions.len() >= round.before.policy.max_sessions,
        round.before.desired_sessions > 0,
        forall|i: int|
            0 <= i < round.sessions.len() ==> {
                &&& (#[trigger] round.sessions[i]).state.status != SshSessionStatus::Offline
                &&& round.sessions[i].retire_requested
                &&& !round.sessions[i].state.forced_turnover_requested
            },
    ensures
        round.plan.force_turnover,
        round.plan.drain_minimum == 0,
        round.plan.spawn is None,
        round.plan.retire is None,
{
    lemma_all_leave(round.sessions);
}

/// A network that comes back ends every wait at once; a machine that was asleep is given two
/// seconds first; and any other report leaves the waits as they are.
pub proof fn networks_that_come_back_end_waits(
    manager: SessionManager,
    snapshot: ConnectivitySnapshot,
    now: u128,
)
    requires
        now <= DURATION_MAX,
    ensures
        ({
            let after = after_connectivity_change(manager, snapshot, now);
            let back = manager.connectivity.availability == NetworkAvailability::Offline
                && snapshot.availability != NetworkAvailability::Offline;
            let slept = snapshot.resume_generation != manager.connectivity.resume_generation;
            &&& after.connectivity == snapshot
            &&& back || slept ==> after.next_spawn_at == now && after.next_owner_attempt == now
                && after.backoff == manager.policy.initial_backoff
            &&& !back && !slept ==> after == SessionManager { connectivity: snapshot, ..manager }
            &&& slept ==> after.resume_settle_until == Some((now + 2_000_000_000) as u128)
                && after.last_tick == now
            &&& !slept ==> after.resume_settle_until == manager.resume_settle_until
            &&& after.desired_sessions == manager.desired_sessions
        }),
{
}

/// A connection that asks for a session is remembered until a session serves or is started; it
/// ends the wait where the network came back.
pub proof fn demand_is_remembered(
    manager: SessionManager,
    snapshot: ConnectivitySnapshot,
    running: bool,
    now: u128,
    round: Round,
)
    requires
        round.holds(),
        round.before.demand_pending,
        serving_count(round.sessions) == 0,
    ensures
        after_demand(manager, None, running, now).demand_pending,
        after_demand(manager, Some(snapshot), running, now).demand_pending,
        after_demand(manager, Some(snapshot), running, now).connectivity == snapshot,
        manager.connectivity.availability == NetworkAvailability::Offline && snapshot.availability
            != NetworkAvailability::Offline ==> after_demand(
            manager,
            Some(snapshot),
            running,
            now,
        ).next_spawn_at == now,
        round.after.demand_pending == (round.plan.spawn is None),
{
}

/// A gap of five seconds between rounds, while there was work, shows that the machine was
/// asleep; a shorter one does not, and offline none does.
pub proof fn gaps_of_five_seconds_show_sleep(manager: SessionManager, now: u128)
    requires
        manager.last_tick <= now,
    ensures
        now < manager.last_tick + 5_000_000_000 ==> !slept(manager, true, now),
        manager.connectivity.availability == NetworkAvailability::Offline ==> !slept(
            manager,
            true,
            now,
        ),
        manager.connectivity.availability != NetworkAvailability::Offline && now
            >= manager.last_tick + 5_000_000_000 ==> slept(manager, true, now),
{
}

/// After a session that had been healthy the next start comes after the usual time; after one
/// that never was it comes after the delay, which doubles with every such failure up to its
/// longest.
pub proof fn failures_double_the_delay(manager: SessionManager, id: u64, lost: bool, now: u128)
    requires
        manager.wf(),
        manager.backoff <= manager.policy.max_backoff,
        now <= DURATION_MAX,
    ensures
        ({
            let well = after_session_exit(manager, id, true, lost, now);
            let failed = after_session_exit(manager, id, false, lost, now);
            &&& well.next_spawn_at == now + manager.policy.spawn_cooldown
            &&& well.backoff == manager.policy.initial_backoff
            &&& failed.next_spawn_at == now + manager.backoff
            &&& manager.backoff + manager.backoff <= manager.policy.max_backoff ==> failed.backoff
                == manager.backoff + manager.backoff
            &&& manager.backoff + manager.backoff > manager.policy.max_backoff ==> failed.backoff
                == manager.policy.max_backoff
            &&& well.desired_sessions == manager.desired_sessions
            &&& failed.desired_sessions == manager.desired_sessions
        }),
{
}

} // verus!
