//! How the sessions of a pool serve and leave: which of them takes a channel, which takes over
//! the remote forwards, and when one that leaves is disconnected. Times are nanoseconds.
use crate::config::SshPoolConfig;
use crate::order::{is_first_minimum, is_last_maximum, is_stable_order, lemma_every_position};
use crate::ssh_manager::ManagerPolicy;
use crate::ssh_policy::{session_manager_ticker_delay, session_pool_requires_forced_turnover};
use crate::ssh_pool::{after_drain_decision, alive, best_rtt, channel_scores, drain_decision,
    drain_round, drain_step, find_session, is_active, latest_error, lemma_positions,
    lemma_session_index, leaving_for, leaving_times, ordered_ids, positions, probe_failure_noted,
    put_out, retired, rotation_progress, serving_count, session_index, some_draining,
    standby_keys, total_in_flight, turnover_positions, with_channel, with_opened_channel,
    with_session, Group, ManagedSession, OwnerDecision, ScheduledRotationProgress,
    ScheduledSessionRotation, SessionDrainDecision, SessionPool, SshSessionState,
    SshSessionStatus};
use crate::text::text_option;
use vstd::prelude::*;

verus! {

// ---------------------------------------------------------------------------
// One session
// ---------------------------------------------------------------------------
/// A change of one session changes that session and no other, and no session comes or goes.
pub proof fn changes_touch_one_session(
    sessions: Seq<ManagedSession>,
    at: int,
    change: spec_fn(ManagedSession) -> ManagedSession,
    other: u64,
)
    requires
        0 <= at < sessions.len(),
        forall|i: int|
            0 <= i < sessions.len() && i != at ==> (#[trigger] sessions[i]).id != sessions[at].id,
        forall|i: int| 0 <= i < sessions.len() ==> (#[trigger] sessions[i]).id != other,
    ensures
        with_session(sessions, sessions[at].id, change) == sessions.update(
            at,
            change(sessions[at]),
        ),
        with_session(sessions, other, change) == sessions,
{
    lemma_session_index(sessions, sessions[at].id);
    lemma_session_index(sessions, other);
    let k = session_index(sessions, sessions[at].id);
    assert(k == at);
    if session_index(sessions, other) < sessions.len() {
        assert(sessions[session_index(sessions, other)].id == other);
    }
}

/// A session serves just while it is healthy and is not to leave; the wish that it leave is noted
/// with its time, and noted once; a channel more is one more, and nothing else.
pub proof fn sessions_serve_until_they_leave(session: ManagedSession, now: u128, later: u128)
    requires
        session.in_flight < usize::MAX,
    ensures
        session.serves() <==> session.state.status == SshSessionStatus::Healthy
            && !session.retire_requested,
        !retired(session, now).serves(),
        retired(session, now).retire_requested,
        !session.retire_requested ==> retired(session, now).state.retirement_started == Some(now),
        retired(retired(session, now), later) == retired(session, now),
        retired(session, now).in_flight == session.in_flight,
        retired(session, now).state.status == session.state.status,
        with_channel(session).in_flight == session.in_flight + 1,
        with_channel(session).serves() == session.serves(),
        with_channel(session).id == session.id,
{
}

/// A sign of life makes a session healthy only where it has recovered and is to stay; it takes
/// the last error away, and without a sample it leaves the round-trip time.
pub proof fn signs_of_life_bring_sessions_back(
    session: ManagedSession,
    recovered: bool,
    sample: Option<u64>,
)
    ensures
        ({
            let after = alive(session, recovered, sample);
            &&& recovered && !session.retire_requested ==> after.state.status
                == SshSessionStatus::Healthy
            &&& !recovered || session.retire_requested ==> after.state.status
                == session.state.status
            &&& after.state.last_error is None
            &&& sample is None ==> after.state.rtt_millis == session.state.rtt_millis
            &&& sample is Some && session.state.rtt_millis is None ==> after.state.rtt_millis
                == sample
            &&& after.in_flight == session.in_flight
            &&& after.retire_requested == session.retire_requested
        }),
{
}

// ---------------------------------------------------------------------------
// Channels
// ---------------------------------------------------------------------------
/// Whether a session is healthy, is to stay, and has fewer channels open than `maximum`.
pub open spec fn is_free(session: ManagedSession, maximum: usize) -> bool {
    session.state.status == SshSessionStatus::Healthy && !session.retire_requested
        && session.in_flight < maximum
}

proof fn lemma_positions_once(sessions: Seq<ManagedSession>, group: Group)
    requires
        sessions.len() <= usize::MAX,
    ensures
        positions(sessions, group).len() <= sessions.len(),
        forall|a: int, b: int|
            0 <= a < b < positions(sessions, group).len() ==> #[trigger] positions(
                sessions,
                group,
            )[a] < #[trigger] positions(sessions, group)[b],
    decreases sessions.len(),
{
    if sessions.len() > 0 {
        let front = sessions.drop_last();
        lemma_positions_once(front, group);
        lemma_positions(front, group);
        let before = positions(front, group);
        let all = positions(sessions, group);
        assert forall|a: int, b: int| 0 <= a < b < all.len() implies #[trigger] all[a]
            < #[trigger] all[b] by {
            assert(all[a] == before[a]);
            if b < before.len() {
                assert(all[b] == before[b]);
            }
        }
    }
}

/// A channel is tried with free sessions only.
pub proof fn channels_go_to_free_sessions(
    sessions: Seq<ManagedSession>,
    maximum: usize,
    order: Seq<usize>,
    k: int,
)
    requires
        sessions.len() <= usize::MAX,
        is_stable_order(
            channel_scores(sessions, positions(sessions, Group::Open(maximum))),
            order,
        ),
        0 <= k < order.len(),
    ensures
        ({
            let open = positions(sessions, Group::Open(maximum));
            let p = open[order[k] as int] as int;
            &&& 0 <= p < sessions.len()
            &&& is_free(sessions[p], maximum)
            &&& ordered_ids(sessions, open, order)[k] == sessions[p].id
        }),
{
    lemma_positions(sessions, Group::Open(maximum));
}

/// Of the free sessions the first to be tried has the least product of its round-trip time and
/// one more than its open channels; of equals the one that stands first in the pool.
pub proof fn the_least_loaded_session_is_tried_first(
    sessions: Seq<ManagedSession>,
    maximum: usize,
    order: Seq<usize>,
    other: int,
)
    requires
        sessions.len() <= usize::MAX,
        is_stable_order(
            channel_scores(sessions, positions(sessions, Group::Open(maximum))),
            order,
        ),
        0 <= other < sessions.len(),
        is_free(sessions[other], maximum),
        sessions[other].state.rtt_millis is Some,
        sessions[other].state.rtt_millis->0 * (sessions[other].in_flight + 1) < u64::MAX,
    ensures
        order.len() > 0,
        ({
            let p = positions(sessions, Group::Open(maximum))[order[0] as int] as int;
            let weight = sessions[other].state.rtt_millis->0 * (sessions[other].in_flight + 1);
            &&& sessions[p].state.rtt_millis is Some ==> sessions[p].state.rtt_millis->0 * (
            sessions[p].in_flight + 1) <= weight
            &&& sessions[p].state.rtt_millis is Some && sessions[p].state.rtt_millis->0 * (
            sessions[p].in_flight + 1) == weight ==> p <= other
            &&& sessions[p].state.rtt_millis is None ==> u64::MAX / 4 <= weight
        }),
{
    let group = Group::Open(maximum);
    let open = positions(sessions, group);
    let scores = channel_scores(sessions, open);
    lemma_positions(sessions, group);
    lemma_positions_once(sessions, group);
    assert(group.has(sessions[other]));
    assert(open.contains(other as usize));
    let j = open.index_of(other as usize);
    lemma_first_of_order(scores, order, j);
    let first = order[0] as int;
    let p = open[first] as int;
    assert(scores[first] == crate::ssh_pool::channel_score(sessions[p]));
    assert(scores[j] == crate::ssh_pool::channel_score(sessions[other]));
    let load = sessions[p].in_flight + 1;
    match sessions[p].state.rtt_millis {
        Some(rtt) => {
            assert(rtt * load >= 0) by (nonlinear_arith)
                requires
                    rtt >= 0,
                    load >= 1,
            ;
        },
        None => {
            let quarter = u64::MAX / 4;
            assert(quarter * load >= quarter) by (nonlinear_arith)
                requires
                    quarter >= 0,
                    load >= 1,
            ;
        },
    }
    let rtt = sessions[other].state.rtt_millis->0;
    let own = sessions[other].in_flight + 1;
    assert(rtt * own >= 0) by (nonlinear_arith)
        requires
            rtt >= 0,
            own >= 1,
    ;
    if first != j {
        if j < first {
            assert(open[j] < open[first]);
        } else {
            assert(open[first] < open[j]);
        }
    }
}

proof fn lemma_first_of_order(keys: Seq<u64>, order: Seq<usize>, j: int)
    requires
        is_stable_order(keys, order),
        0 <= j < keys.len(),
        keys.len() <= usize::MAX,
    ensures
        order.len() > 0,
        keys[order[0] as int] <= keys[j],
        keys[order[0] as int] == keys[j] ==> order[0] <= j,
{
    assert(order.contains(j as usize)) by {
        lemma_order_holds_all(keys, order, j as usize);
    }
    let i = order.index_of(j as usize);
    if i > 0 {
        assert(crate::order::comes_before(keys, order[0], order[i]));
    }
}

proof fn lemma_order_holds_all(keys: Seq<u64>, order: Seq<usize>, j: usize)
    requires
        is_stable_order(keys, order),
        j < keys.len(),
    ensures
        order.contains(j),
{
    let n = keys.len() as int;
    assert(order.no_duplicates()) by {
        assert forall|a: int, b: int|
            0 <= a < order.len() && 0 <= b < order.len() && a != b implies order[a] != order[b] by {
            if a < b {
                assert(crate::order::comes_before(keys, order[a], order[b]));
            } else {
                assert(crate::order::comes_before(keys, order[b], order[a]));
            }
        }
    }
    if !order.contains(j) {
        let ints = order.map_values(|x: usize| x as int);
        assert(ints.no_duplicates());
        let all = vstd::set_lib::set_int_range(0, n);
        vstd::set_lib::lemma_int_range(0, n);
        ints.unique_seq_to_set();
        let rest = all.remove(j as int);
        assert(ints.to_set().subset_of(rest)) by {
            assert forall|x: int| ints.to_set().contains(x) implies rest.contains(x) by {
                let k = ints.index_of(x);
                assert(ints[k] == x);
                assert(order[k] as int == x);
                assert(order.contains(order[k]));
            }
        }
        vstd::set_lib::lemma_len_subset(ints.to_set(), rest);
    }
}

// ---------------------------------------------------------------------------
// The remote forwards
// ---------------------------------------------------------------------------
/// The remote forwards go to the serving session with the least round-trip time, one with a known
/// time before one without, and of equals to the first.
pub proof fn the_nearest_session_takes_over(
    sessions: Seq<ManagedSession>,
    owner: Option<u64>,
    k: int,
    other: int,
)
    requires
        sessions.len() <= usize::MAX,
        is_first_minimum(
            standby_keys(sessions, positions(sessions, Group::Standby(owner))),
            k,
        ),
        0 <= other < sessions.len(),
        sessions[other].state.status == SshSessionStatus::Healthy,
        !sessions[other].retire_requested,
        owner != Some(sessions[other].id),
    ensures
        ({
            let p = positions(sessions, Group::Standby(owner))[k] as int;
            let (near, far) = (sessions[p].state.rtt_millis, sessions[other].state.rtt_millis);
            &&& near is Some && far is Some ==> near->0 <= far->0
            &&& far is Some && far->0 < u64::MAX ==> near is Some
            &&& near == far ==> p <= other
        }),
{
    let group = Group::Standby(owner);
    let places = positions(sessions, group);
    let keys = standby_keys(sessions, places);
    lemma_positions(sessions, group);
    lemma_positions_once(sessions, group);
    assert(group.has(sessions[other]));
    assert(places.contains(other as usize));
    let j = places.index_of(other as usize);
    assert(keys[k] <= keys[j]);
    if j < k {
        assert(keys[k] < keys[j]);
    } else if k < j {
        assert(places[k] < places[j]);
    }
}

// ---------------------------------------------------------------------------
// The state of the host
// ---------------------------------------------------------------------------
/// The round-trip time of a host is the least of its serving sessions; it has one just where some
/// serving session has one.
pub proof fn the_best_time_is_the_least(sessions: Seq<ManagedSession>, i: int)
    requires
        0 <= i < sessions.len(),
        sessions[i].state.status == SshSessionStatus::Healthy,
        !sessions[i].retire_requested,
        sessions[i].state.rtt_millis is Some,
    ensures
        best_rtt(sessions) is Some,
        best_rtt(sessions)->0 <= sessions[i].state.rtt_millis->0,
    decreases sessions.len(),
{
    let front = sessions.drop_last();
    if i < sessions.len() - 1 {
        assert(front[i] == sessions[i]);
        the_best_time_is_the_least(front, i);
    }
}

/// The round-trip time of a host is that of one of its serving sessions.
pub proof fn the_best_time_is_measured(sessions: Seq<ManagedSession>)
    requires
        best_rtt(sessions) is Some,
    ensures
        exists|i: int|
            0 <= i < sessions.len() && (#[trigger] sessions[i]).state.status
                == SshSessionStatus::Healthy && !sessions[i].retire_requested
                && sessions[i].state.rtt_millis == best_rtt(sessions),
    decreases sessions.len(),
{
    let front = sessions.drop_last();
    let last = sessions[sessions.len() - 1];
    if best_rtt(front) is Some && best_rtt(sessions) == best_rtt(front) {
        the_best_time_is_measured(front);
        let i = choose|i: int|
            0 <= i < front.len() && (#[trigger] front[i]).state.status
                == SshSessionStatus::Healthy && !front[i].retire_requested
                && front[i].state.rtt_millis == best_rtt(front);
        assert(sessions[i] == front[i]);
    } else {
        assert(last.state.rtt_millis == best_rtt(sessions));
    }
}

/// The error of a host is that of the last session that has one.
pub proof fn the_last_error_is_told(sessions: Seq<ManagedSession>, next: ManagedSession)
    ensures
        latest_error(Seq::empty()) is None,
        next.state.last_error is Some ==> latest_error(sessions.push(next)) == text_option(
            next.state.last_error,
        ),
        next.state.last_error is None ==> latest_error(sessions.push(next)) == latest_error(
            sessions,
        ),
        next.state.status != SshSessionStatus::Offline ==> is_active(sessions.push(next)),
{
    assert(sessions.push(next).drop_last() =~= sessions);
    assert(sessions.push(next)[sessions.len() as int] == next);
}

/// Every session counts once as a serving one, and only while it serves.
pub proof fn serving_sessions_are_counted(sessions: Seq<ManagedSession>, next: ManagedSession)
    ensures
        serving_count(Seq::empty()) == 0,
        serving_count(sessions.push(next)) == serving_count(sessions) + if next.state.status
            == SshSessionStatus::Healthy && !next.retire_requested {
            1int
        } else {
            0int
        },
{
    assert(sessions.push(next).drop_last() =~= sessions);
}

// ---------------------------------------------------------------------------
// Leaving
// ---------------------------------------------------------------------------
/// A session that leaves is done once it has no channels; while data moves it is waited for; once
/// none has moved for the timeout it has stalled, and not a moment before.
pub proof fn leaving_sessions_are_waited_for(
    state: SshSessionState,
    channels: usize,
    generation: u64,
    now: u128,
    timeout: u128,
    since: u128,
)
    requires
        state.drain_idle_since == Some(since),
        since <= now,
    ensures
        channels == 0 <==> drain_decision(state, channels, generation, now, timeout)
            == SessionDrainDecision::Drained,
        channels > 0 && generation != state.drain_payload_generation ==> drain_decision(
            state,
            channels,
            generation,
            now,
            timeout,
        ) == SessionDrainDecision::Waiting,
        channels > 0 && generation == state.drain_payload_generation && now >= since + timeout
            ==> drain_decision(state, channels, generation, now, timeout)
            == SessionDrainDecision::Stalled,
        channels > 0 && generation == state.drain_payload_generation && now < since + timeout
            ==> drain_decision(state, channels, generation, now, timeout)
            == SessionDrainDecision::Waiting,
{
}

/// Data that moved starts the wait anew: from then on the session is given the whole timeout.
pub proof fn moving_data_starts_the_wait_anew(
    state: SshSessionState,
    channels: usize,
    generation: u64,
    now: u128,
    later: u128,
    timeout: u128,
)
    requires
        channels > 0,
        generation != state.drain_payload_generation,
        now <= later < now + timeout,
    ensures
        drain_decision(
            after_drain_decision(state, channels, generation, now),
            channels,
            generation,
            later,
            timeout,
        ) == SessionDrainDecision::Waiting,
        drain_decision(
            after_drain_decision(state, channels, generation, now),
            channels,
            generation,
            (now + timeout) as u128,
            timeout,
        ) == SessionDrainDecision::Stalled || now + timeout > u128::MAX,
{
}

proof fn lemma_round_keeps_length(
    sessions: Seq<ManagedSession>,
    n: int,
    busy: bool,
    owner: Option<u64>,
    now: u128,
    timeout: u128,
)
    requires
        0 <= n <= sessions.len(),
    ensures
        drain_round(sessions, n, busy, owner, now, timeout).0.len() == n,
        busy ==> drain_round(sessions, n, busy, owner, now, timeout).1,
    decreases n,
{
    if n > 0 {
        lemma_round_keeps_length(sessions, n - 1, busy, owner, now, timeout);
    }
}

proof fn lemma_round_at(
    sessions: Seq<ManagedSession>,
    n: int,
    busy: bool,
    owner: Option<u64>,
    now: u128,
    timeout: u128,
    i: int,
)
    requires
        0 <= i < n <= sessions.len(),
    ensures
        ({
            let here = drain_round(sessions, i, busy, owner, now, timeout);
            let all = drain_round(sessions, n, busy, owner, now, timeout);
            let step = drain_step(sessions[i], here.1, owner, now, timeout);
            &&& all.0.len() == n
            &&& all.0[i] == step.0
            &&& step.0.connected && step.2 is Some && step.2->0 != SessionDrainDecision::Waiting
                ==> all.2.contains((step.0.id, step.2->0))
        }),
    decreases n,
{
    lemma_round_keeps_length(sessions, n - 1, busy, owner, now, timeout);
    let before = drain_round(sessions, n - 1, busy, owner, now, timeout);
    let all = drain_round(sessions, n, busy, owner, now, timeout);
    if i < n - 1 {
        lemma_round_at(sessions, n - 1, busy, owner, now, timeout, i);
        let here = drain_round(sessions, i, busy, owner, now, timeout);
        let step = drain_step(sessions[i], here.1, owner, now, timeout);
        assert(all.0[i] == before.0[i]);
        if before.2.contains((step.0.id, step.2->0)) {
            let k = before.2.index_of((step.0.id, step.2->0));
            assert(all.2[k] == before.2[k]);
        }
    } else {
        let step = drain_step(sessions[i], before.1, owner, now, timeout);
        if step.0.connected && step.2 is Some && step.2->0 != SessionDrainDecision::Waiting {
            assert(all.2[before.2.len() as int] == (step.0.id, step.2->0));
        }
    }
}

/// A connected session that drains and does not hold the remote forwards is disconnected in a
/// round as drained once its last channel is closed, and as stalled once no data has moved on
/// its channels for the timeout.
pub proof fn drained_sessions_are_disconnected(
    sessions: Seq<ManagedSession>,
    owner: Option<u64>,
    now: u128,
    timeout: u128,
    i: int,
)
    requires
        0 <= i < sessions.len(),
        sessions[i].retire_requested,
        sessions[i].state.status == SshSessionStatus::Draining,
        !sessions[i].state.forced_turnover_requested,
        owner != Some(sessions[i].id),
        sessions[i].connected,
    ensures
        ({
            let round = drain_round(
                sessions,
                sessions.len() as int,
                some_draining(sessions),
                owner,
                now,
                timeout,
            );
            &&& sessions[i].in_flight == 0 ==> round.2.contains(
                (sessions[i].id, SessionDrainDecision::Drained),
            )
            &&& sessions[i].in_flight > 0 && sessions[i].payload_generation
                == sessions[i].state.drain_payload_generation && (
            sessions[i].state.drain_idle_since matches Some(since) && now >= since + timeout)
                ==> round.2.contains((sessions[i].id, SessionDrainDecision::Stalled))
        }),
{
    lemma_round_at(
        sessions,
        sessions.len() as int,
        some_draining(sessions),
        owner,
        now,
        timeout,
        i,
    );
}

/// Where none drains, the first session of the pool that is to leave, and does not hold the remote
/// forwards, begins to: its wait starts now.
pub proof fn the_first_leaving_session_begins_to_drain(
    sessions: Seq<ManagedSession>,
    owner: Option<u64>,
    now: u128,
    timeout: u128,
    i: int,
)
    requires
        0 <= i < sessions.len(),
        !some_draining(sessions),
        sessions[i].retire_requested,
        !sessions[i].state.forced_turnover_requested,
        owner != Some(sessions[i].id),
        forall|j: int|
            0 <= j < i ==> !(#[trigger] sessions[j]).retire_requested
                || sessions[j].state.forced_turnover_requested || owner == Some(sessions[j].id),
    ensures
        ({
            let after = drain_round(
                sessions,
                sessions.len() as int,
                some_draining(sessions),
                owner,
                now,
                timeout,
            ).0[i];
            &&& after.state.status == SshSessionStatus::Draining
            &&& after.state.drain_started == Some(now)
            &&& after.state.drain_idle_since == Some(now)
            &&& after.in_flight == sessions[i].in_flight
        }),
{
    lemma_round_at(sessions, sessions.len() as int, false, owner, now, timeout, i);
    lemma_quiet_until(sessions, i, owner, now, timeout);
    assert(sessions[i].state.status != SshSessionStatus::Draining);
}

proof fn lemma_quiet_until(
    sessions: Seq<ManagedSession>,
    n: int,
    owner: Option<u64>,
    now: u128,
    timeout: u128,
)
    requires
        0 <= n <= sessions.len(),
        forall|j: int|
            0 <= j < n ==> !(#[trigger] sessions[j]).retire_requested
                || sessions[j].state.forced_turnover_requested || owner == Some(sessions[j].id),
    ensures
        !drain_round(sessions, n, false, owner, now, timeout).1,
    decreases n,
{
    if n > 0 {
        lemma_quiet_until(sessions, n - 1, owner, now, timeout);
    }
}

/// A session that is put out drains from then on, and is marked; one that drained already goes on
/// from when it began.
pub proof fn put_out_sessions_drain(session: ManagedSession, now: u128)
    ensures
        put_out(session, now).state.forced_turnover_requested,
        put_out(session, now).state.status == SshSessionStatus::Draining,
        session.state.drain_started is None ==> put_out(session, now).state.drain_started == Some(
            now,
        ),
        session.state.drain_started is Some ==> put_out(session, now).state.drain_started
            == session.state.drain_started,
        put_out(session, now).id == session.id,
        put_out(session, now).in_flight == session.in_flight,
{
}

/// The session that is put out has been leaving for the longest time: since it began to drain,
/// or, where it has not, since the wish that it leave.
pub proof fn the_longest_leaving_session_is_put_out(
    sessions: Seq<ManagedSession>,
    owner: Option<u64>,
    now: u128,
    k: int,
    other: int,
    wished: u128,
)
    requires
        sessions.len() <= usize::MAX,
        is_last_maximum(leaving_times(sessions, turnover_positions(sessions, owner), now), k),
        0 <= other < sessions.len(),
        sessions[other].retire_requested,
        sessions[other].state.status != SshSessionStatus::Offline,
        !sessions[other].state.forced_turnover_requested,
        owner != Some(sessions[other].id),
        sessions[other].state.drain_started is None,
        sessions[other].state.retirement_started == Some(wished),
        wished <= now,
    ensures
        ({
            let out = sessions[turnover_positions(sessions, owner)[k] as int];
            &&& out.retire_requested
            &&& out.state.status != SshSessionStatus::Offline
            &&& owner != Some(out.id)
            &&& leaving_for(out, now) >= now - wished
        }),
{
    crate::ssh_pool::turnover_prefers_the_oldest_non_owner(sessions, owner, now, k, other);
}

// ---------------------------------------------------------------------------
// Decisions
// ---------------------------------------------------------------------------
/// Whether a session holds the remote forwards and serves them.
pub open spec fn holds_and_serves(session: ManagedSession, owner: Option<u64>) -> bool {
    owner == Some(session.id) && session.state.status == SshSessionStatus::Healthy
        && !session.retire_requested && session.connected
}

/// Whether a session can take the remote forwards over.
pub open spec fn can_take_over(session: ManagedSession, owner: Option<u64>) -> bool {
    owner != Some(session.id) && session.state.status == SshSessionStatus::Healthy
        && !session.retire_requested
}

/// The holder of the remote forwards keeps them while it serves; else they go to another session
/// that serves, where there is one; without one, a holder that is to leave gives them up. Without
/// remote forwards nothing is to be done.
pub proof fn remote_forwards_stay_with_a_serving_session(
    pool: SessionPool,
    has_remote_forwards: bool,
    decision: OwnerDecision,
)
    requires
        pool.sessions@.len() <= usize::MAX,
        forall|i: int, j: int|
            0 <= i < j < pool.sessions@.len() ==> (#[trigger] pool.sessions@[i]).id != (
            #[trigger] pool.sessions@[j]).id,
        call_ensures(
            SessionPool::remote_owner_decision,
            (&pool, has_remote_forwards),
            decision,
        ),
    ensures
        ({
            let sessions = pool.sessions@;
            let owner = pool.remote_owner;
            let is_served = exists|i: int|
                0 <= i < sessions.len() && #[trigger] holds_and_serves(sessions[i], owner);
            let is_taken = exists|i: int|
                0 <= i < sessions.len() && #[trigger] can_take_over(sessions[i], owner);
            &&& decision == OwnerDecision::Settled <==> !has_remote_forwards || is_served
            &&& decision is Handover <==> has_remote_forwards && !is_served && is_taken
            &&& decision matches OwnerDecision::Handover { from, to } ==> exists|i: int|
                0 <= i < sessions.len() && #[trigger] can_take_over(sessions[i], owner)
                    && sessions[i].id == to
            &&& decision matches OwnerDecision::Release { owner: id } ==> owner == Some(id)
        }),
{
    let sessions = pool.sessions@;
    let owner = pool.remote_owner;
    let group = Group::Standby(owner);
    let standby = positions(sessions, group);
    lemma_positions(sessions, group);
    if owner is Some {
        lemma_session_index(sessions, owner->0);
        let at = session_index(sessions, owner->0);
        assert forall|i: int|
            0 <= i < sessions.len() && #[trigger] holds_and_serves(
                sessions[i],
                owner,
            ) implies i == at by {
            assert(sessions[i].id == owner->0);
            if i != at {
                assert(at < i);
                assert(sessions[at].id != sessions[i].id);
            }
        }
        if at < sessions.len() && sessions[at].serves() && sessions[at].connected {
            assert(holds_and_serves(sessions[at], owner));
        }
    }
    assert forall|i: int|
        0 <= i < sessions.len() && #[trigger] can_take_over(
            sessions[i],
            owner,
        ) implies standby.len() > 0 by {
        assert(group.has(sessions[i]));
        assert(standby.contains(i as usize));
    }
    if decision is Handover {
        let keys = standby_keys(sessions, standby);
        let k = choose|k: int| #[trigger]
            is_first_minimum(keys, k) && decision->to == sessions[standby[k] as int].id;
        assert(group.has(sessions[standby[k] as int]));
        assert(can_take_over(sessions[standby[k] as int], owner));
    }
}

/// An exchange of sessions is over once the new session serves while the old one is still there;
/// without the old one it is given up; before either it goes on.
pub proof fn exchanges_wait_for_the_new_session(
    sessions: Seq<ManagedSession>,
    rotation: ScheduledSessionRotation,
)
    requires
        rotation.replacement_session_id is Some,
    ensures
        ({
            let progress = rotation_progress(sessions, rotation);
            let new = find_session(sessions, rotation.replacement_session_id->0);
            let old_is_there = find_session(sessions, rotation.candidate_session_id) is Some;
            let new_serves = new is Some && new->0.state.status == SshSessionStatus::Healthy
                && !new->0.retire_requested;
            &&& progress == ScheduledRotationProgress::Cancelled <==> !old_is_there
            &&& progress == ScheduledRotationProgress::Activated <==> old_is_there && new_serves
        }),
{
}

/// A session that is looked for is the one with that number.
pub proof fn sessions_are_found_by_number(sessions: Seq<ManagedSession>, id: u64)
    ensures
        find_session(sessions, id) is Some <==> exists|i: int|
            0 <= i < sessions.len() && (#[trigger] sessions[i]).id == id,
        find_session(sessions, id) is Some ==> find_session(sessions, id)->0.id == id
            && sessions.contains(find_session(sessions, id)->0),
{
    lemma_session_index(sessions, id);
    let at = session_index(sessions, id);
    if at < sessions.len() {
        assert(sessions[at].id == id);
    }
}

/// A probe without an answer makes a session suspect, unless it drains, and keeps its error; only
/// where a new session is wanted in its place is it to leave.
pub proof fn unanswered_probes_make_sessions_suspect(
    before: Seq<ManagedSession>,
    after: Seq<ManagedSession>,
    at: int,
    error: Seq<char>,
    wants_another: bool,
    now: u128,
)
    requires
        0 <= at < before.len(),
        session_index(before, before[at].id) == at,
        probe_failure_noted(before, after, before[at].id, error, wants_another, now),
    ensures
        after.len() == before.len(),
        before[at].state.status != SshSessionStatus::Draining ==> after[at].state.status
            == SshSessionStatus::Suspect,
        before[at].state.status == SshSessionStatus::Draining ==> after[at].state.status
            == SshSessionStatus::Draining,
        text_option(after[at].state.last_error) == Some(error),
        after[at].retire_requested == (before[at].retire_requested || wants_another),
        after[at].in_flight == before[at].in_flight,
        after[at].id == before[at].id,
        forall|j: int| 0 <= j < before.len() && j != at ==> after[j] == before[j],
{
}

/// A channel that was opened tells how near the host is: the first sample is taken as it is. It
/// takes the last error away, and changes nothing else.
pub proof fn opened_channels_tell_the_time(session: ManagedSession, sample: u64)
    ensures
        session.state.rtt_millis is None ==> with_opened_channel(
            session,
            sample,
        ).state.rtt_millis == Some(sample),
        session.state.rtt_millis == Some(sample) && sample < u64::MAX / 8 ==> with_opened_channel(
            session,
            sample,
        ).state.rtt_millis == Some(sample),
        with_opened_channel(session, sample).state.last_error is None,
        with_opened_channel(session, sample).state.status == session.state.status,
        with_opened_channel(session, sample).in_flight == session.in_flight,
        with_opened_channel(session, sample).retire_requested == session.retire_requested,
        with_opened_channel(session, sample).id == session.id,
{
}

/// The open channels of a host are those of all its sessions.
pub proof fn open_channels_are_counted(sessions: Seq<ManagedSession>, next: ManagedSession)
    ensures
        total_in_flight(Seq::empty()) == 0,
        total_in_flight(sessions.push(next)) == total_in_flight(sessions) + next.in_flight,
{
    assert(sessions.push(next).drop_last() =~= sessions);
}

// ---------------------------------------------------------------------------
// Settings
// ---------------------------------------------------------------------------
/// The manager of a pool goes by the settings of the pool, in nanoseconds; it exchanges sessions
/// only where that is switched on.
pub proof fn managers_follow_their_settings(
    pool: SshPoolConfig,
    requires_remote_availability: bool,
    policy: ManagerPolicy,
)
    requires
        call_ensures(
            ManagerPolicy::from_pool,
            (&pool, requires_remote_availability),
            policy,
        ),
    ensures
        policy.initial_backoff == pool.restart_initial_millis * 1_000_000,
        policy.max_backoff == pool.restart_max_secs * 1_000_000_000,
        policy.spawn_cooldown == pool.session_spawn_cooldown_millis * 1_000_000,
        policy.drain_timeout == pool.session_drain_timeout_secs * 1_000_000_000,
        policy.rotation_interval is Some <==> pool.session_rotation_enabled,
        policy.rotation_interval is Some ==> policy.rotation_interval->0
            == pool.session_rotation_interval_secs * 1_000_000_000,
        policy.min_sessions == pool.min_sessions_per_host,
        policy.max_sessions == pool.max_sessions_per_host,
        policy.max_channels == pool.max_channels_per_session,
        policy.requires_remote_availability == requires_remote_availability,
{
}

/// A wait ends at its time, and at once where that is over or none is set.
pub proof fn waits_end_at_their_time(not_before: u128, now: u128)
    ensures
        session_manager_ticker_delay(None, now) == 0,
        now <= not_before ==> now + session_manager_ticker_delay(Some(not_before), now)
            == not_before,
        now >= not_before ==> session_manager_ticker_delay(Some(not_before), now) == 0,
{
}

/// A session is put out of a full pool only while all its sessions are to leave, none can be
/// started in its place, and none is being put out already.
pub proof fn full_pools_put_one_session_out(
    active: usize,
    leaving: usize,
    most: usize,
    blocked: bool,
    under_way: bool,
)
    ensures
        session_pool_requires_forced_turnover(active, leaving, most, blocked, under_way)
            <==> blocked && !under_way && 0 < active && most <= active && leaving == active,
{
}

/// A channel is tried with every free session, and with no other.
pub proof fn every_free_session_is_tried(pool: SessionPool, maximum: usize, tried: Vec<u64>, i: int)
    requires
        pool.sessions@.len() <= usize::MAX,
        call_ensures(SessionPool::channel_candidates, (&pool, maximum), tried),
    ensures
        0 <= i < pool.sessions@.len() && is_free(pool.sessions@[i], maximum) ==> tried@.contains(
            pool.sessions@[i].id,
        ),
        0 <= i < tried@.len() ==> exists|p: int|
            0 <= p < pool.sessions@.len() && #[trigger] is_free(pool.sessions@[p], maximum)
                && pool.sessions@[p].id == tried@[i],
{
    let sessions = pool.sessions@;
    let open = positions(sessions, Group::Open(maximum));
    let scores = channel_scores(sessions, open);
    let order = choose|order: Seq<usize>| #[trigger]
        is_stable_order(scores, order) && tried@ == ordered_ids(sessions, open, order);
    lemma_positions(sessions, Group::Open(maximum));
    if 0 <= i < sessions.len() && is_free(sessions[i], maximum) {
        assert(Group::Open(maximum).has(sessions[i]));
        assert(open.contains(i as usize));
        let k = open.index_of(i as usize);
        lemma_positions_once(sessions, Group::Open(maximum));
        lemma_every_position(scores, order, k);
        let at = choose|at: int| 0 <= at < order.len() && order[at] == k;
        assert(tried@[at] == sessions[i].id);
    }
    if 0 <= i < tried@.len() {
        let p = open[order[i] as int] as int;
        assert(is_free(sessions[p], maximum));
    }
}

/// A host has a free session where one of its sessions is healthy, stays, and has fewer channels
/// open than it may have.
pub proof fn free_sessions_are_seen(pool: SessionPool, maximum: usize, has_some: bool)
    requires
        call_ensures(SessionPool::has_available_session, (&pool, maximum), has_some),
    ensures
        has_some <==> exists|i: int|
            0 <= i < pool.sessions@.len() && #[trigger] is_free(pool.sessions@[i], maximum),
{
    let sessions = pool.sessions@;
    if has_some {
        let i = choose|i: int|
            0 <= i < sessions.len() && crate::ssh_pool::takes_channels(
                #[trigger] sessions[i],
                maximum,
            );
        assert(is_free(sessions[i], maximum));
    }
    if exists|i: int| 0 <= i < sessions.len() && #[trigger] is_free(sessions[i], maximum) {
        let i = choose|i: int| 0 <= i < sessions.len() && #[trigger] is_free(sessions[i], maximum);
        assert(crate::ssh_pool::takes_channels(sessions[i], maximum));
    }
}

/// The oldest session is the serving one with the least number.
pub proof fn the_oldest_session_has_the_least_number(
    pool: SessionPool,
    oldest: Option<u64>,
    i: int,
)
    requires
        call_ensures(SessionPool::oldest_healthy_session_id, (&pool,), oldest),
        0 <= i < pool.sessions@.len(),
        pool.sessions@[i].state.status == SshSessionStatus::Healthy,
        !pool.sessions@[i].retire_requested,
    ensures
        oldest is Some,
        oldest->0 <= pool.sessions@[i].id,
        exists|k: int|
            0 <= k < pool.sessions@.len() && (#[trigger] pool.sessions@[k]).id == oldest->0
                && pool.sessions@[k].state.status == SshSessionStatus::Healthy
                && !pool.sessions@[k].retire_requested,
{
    assert(pool.sessions@[i].serves());
}

} // verus!
