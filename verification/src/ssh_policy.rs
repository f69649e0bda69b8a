//! The rules that a pool of SSH sessions goes by. Times and durations are nanoseconds.
use crate::arith::{larger, smaller, wide_product};
use crate::network::{ConnectivitySnapshot, NetworkAvailability};
use vstd::prelude::*;

verus! {

/// One second.
pub const SECOND: u128 = 1_000_000_000;

/// One millisecond.
pub const MILLISECOND: u128 = 1_000_000;

/// The longest duration: the largest number of seconds and all but one nanosecond of another.
pub const DURATION_MAX: u128 = 18_446_744_073_709_551_615_999_999_999;

/// How many sessions of one host may be connecting at a time.
pub const MAX_CONCURRENT_SESSION_STARTS_PER_HOST: usize = 2;

/// The time between two rounds of maintenance.
pub const SESSION_MANAGER_TICK_INTERVAL: u128 = 1_000_000_000;

/// The time between two looks at the network of an offline host with remote forwards.
pub const OFFLINE_REMOTE_REFRESH_INTERVAL: u128 = 30_000_000_000;

/// The time between two rounds of a manager that has nothing to do.
pub const DORMANT_SESSION_MANAGER_INTERVAL: u128 = 3_600_000_000_000;

/// How long a machine that came back from sleep is given.
pub const RESUME_SETTLE_INTERVAL: u128 = 2_000_000_000;

/// A gap between two rounds that shows that the machine was asleep.
pub const SUSPECTED_SUSPEND_GAP: u128 = 5_000_000_000;

/// How long the pressure lasts before the pool grows.
pub const SESSION_SCALE_UP_SUSTAINED_INTERVAL: u128 = 2_000_000_000;

/// How long the pool is idle before it shrinks.
pub const SESSION_SCALE_DOWN_IDLE_INTERVAL: u128 = 300_000_000_000;

/// The time between two steps of shrinking.
pub const SESSION_SCALE_DOWN_STEP_INTERVAL: u128 = 30_000_000_000;

/// How many sessions a pool starts with.
#[verifier::allow_in_spec]
pub fn initial_session_start_count(minimum: usize) -> usize
    returns
        smaller(minimum as int, MAX_CONCURRENT_SESSION_STARTS_PER_HOST as int) as usize,
{
    if minimum <= MAX_CONCURRENT_SESSION_STARTS_PER_HOST {
        minimum
    } else {
        MAX_CONCURRENT_SESSION_STARTS_PER_HOST
    }
}

/// The sum of durations.
pub open spec fn total(durations: Seq<u128>) -> int
    decreases durations.len(),
{
    if durations.len() == 0 {
        0
    } else {
        total(durations.drop_last()) + durations.last()
    }
}

/// Twice the connect timeouts of every hop, at least a second.
pub open spec fn recovery_interval(connect_timeouts: Seq<u128>) -> int {
    larger(smaller(2 * total(connect_timeouts), DURATION_MAX as int), SECOND as int)
}

/// How often a waiting connection looks for a session: twice the connect timeouts of every
/// hop, at least a second.
pub fn session_recovery_poll_interval(connect_timeouts: &Vec<u128>) -> (r: u128)
    requires
        forall|i: int|
            0 <= i < connect_timeouts@.len() ==> #[trigger] connect_timeouts@[i] <= DURATION_MAX,
    ensures
        r == recovery_interval(connect_timeouts@),
{
    let mut sum: u128 = 0;
    for i in 0..connect_timeouts.len()
        invariant
            forall|i: int|
                0 <= i < connect_timeouts@.len() ==> #[trigger] connect_timeouts@[i]
                    <= DURATION_MAX,
            sum == smaller(2 * total(connect_timeouts@.take(i as int)), DURATION_MAX as int),
    {
        let ghost next = connect_timeouts@.take(i + 1);
        assert(next.drop_last() == connect_timeouts@.take(i as int));
        let wide: u128 = sum + 2 * connect_timeouts[i];
        sum = if wide > DURATION_MAX {
            DURATION_MAX
        } else {
            wide
        };
    }
    assert(connect_timeouts@.take(connect_timeouts@.len() as int) == connect_timeouts@);
    if sum >= SECOND {
        sum
    } else {
        SECOND
    }
}

/// Whether one more session may start while `connecting` are starting.
#[verifier::allow_in_spec]
pub fn can_start_another_session(connecting: usize) -> bool
    returns
        (connecting < MAX_CONCURRENT_SESSION_STARTS_PER_HOST),
{
    connecting < MAX_CONCURRENT_SESSION_STARTS_PER_HOST
}

/// Whether sessions may be started at all: never offline; else for remote forwards, for a
/// waiting connection, within the budget of the start, and, online, wherever a change of the
/// network would be reported.
#[verifier::allow_in_spec]
pub fn session_spawn_authorized(
    connectivity: ConnectivitySnapshot,
    requires_remote_availability: bool,
    demand_pending: bool,
    startup_spawn_budget: usize,
) -> bool
    returns
        (match connectivity.availability {
            NetworkAvailability::Offline => false,
            NetworkAvailability::Online => connectivity.events_available
                || requires_remote_availability || demand_pending || startup_spawn_budget > 0,
            NetworkAvailability::Unknown => requires_remote_availability || demand_pending
                || startup_spawn_budget > 0,
        }),
{
    match connectivity.availability {
        NetworkAvailability::Offline => false,
        NetworkAvailability::Online => connectivity.events_available
            || requires_remote_availability || demand_pending || startup_spawn_budget > 0,
        NetworkAvailability::Unknown => requires_remote_availability || demand_pending
            || startup_spawn_budget > 0,
    }
}

/// The time between two rounds of maintenance.
#[verifier::allow_in_spec]
pub fn session_manager_tick_interval(
    connectivity: ConnectivitySnapshot,
    requires_remote_availability: bool,
    background_work_enabled: bool,
) -> u128
    returns
        (if connectivity.is_offline() && requires_remote_availability {
            OFFLINE_REMOTE_REFRESH_INTERVAL
        } else if !connectivity.is_offline() && background_work_enabled {
            SESSION_MANAGER_TICK_INTERVAL
        } else {
            DORMANT_SESSION_MANAGER_INTERVAL
        }),
{
    if connectivity.is_offline() {
        if requires_remote_availability {
            OFFLINE_REMOTE_REFRESH_INTERVAL
        } else {
            DORMANT_SESSION_MANAGER_INTERVAL
        }
    } else if background_work_enabled {
        SESSION_MANAGER_TICK_INTERVAL
    } else {
        DORMANT_SESSION_MANAGER_INTERVAL
    }
}

/// How long the next round waits for the deadline `not_before`.
#[verifier::allow_in_spec]
pub fn session_manager_ticker_delay(not_before: Option<u128>, now: u128) -> u128
    returns
        (match not_before {
            Some(deadline) => larger(deadline - now, 0) as u128,
            None => 0,
        }),
{
    match not_before {
        Some(deadline) => deadline.saturating_sub(now),
        None => 0,
    }
}

/// At least three quarters of the channels of the healthy sessions are open.
pub open spec fn under_pressure(
    in_flight: usize,
    healthy_sessions: usize,
    max_channels_per_session: usize,
) -> bool {
    healthy_sessions > 0 && 4 * in_flight >= 3 * (healthy_sessions * max_channels_per_session)
}

/// Whether at least three quarters of the channels of the healthy sessions are open.
pub fn session_pool_is_under_pressure(
    in_flight: usize,
    healthy_sessions: usize,
    max_channels_per_session: usize,
) -> (r: bool)
    ensures
        r == under_pressure(in_flight, healthy_sessions, max_channels_per_session),
{
    if healthy_sessions == 0 {
        return false;
    }
    let capacity: u128 = wide_product(healthy_sessions as u64, max_channels_per_session as u64);
    if capacity > u128::MAX / 3 {
        return false;
    }
    in_flight as u128 * 4 >= capacity * 3
}

/// More sessions are healthy than the pool must hold, and at most a quarter of the channels
/// that one fewer would have are open.
pub open spec fn can_scale_down(
    in_flight: usize,
    healthy_sessions: usize,
    minimum_sessions: usize,
    max_channels_per_session: usize,
) -> bool {
    healthy_sessions > minimum_sessions && 4 * in_flight <= smaller(
        (healthy_sessions - 1) * max_channels_per_session,
        usize::MAX as int,
    )
}

/// Whether the pool has a session more than it needs.
pub fn session_pool_can_scale_down(
    in_flight: usize,
    healthy_sessions: usize,
    minimum_sessions: usize,
    max_channels_per_session: usize,
) -> (r: bool)
    ensures
        r == can_scale_down(
            in_flight,
            healthy_sessions,
            minimum_sessions,
            max_channels_per_session,
        ),
{
    if healthy_sessions <= minimum_sessions {
        return false;
    }
    let wide: u128 = wide_product(
        (healthy_sessions - 1) as u64,
        max_channels_per_session as u64,
    );
    let capacity: u128 = if wide > usize::MAX as u128 {
        usize::MAX as u128
    } else {
        wide
    };
    in_flight as u128 * 4 <= capacity
}

/// Whether one retiring session must be put out at once: every slot of a full pool is
/// retiring, so that no replacement can start, and none is being put out already.
#[verifier::allow_in_spec]
pub fn session_pool_requires_forced_turnover(
    active_sessions: usize,
    retiring_sessions: usize,
    maximum_sessions: usize,
    replacement_capacity_blocked: bool,
    forced_turnover_in_progress: bool,
) -> bool
    returns
        (replacement_capacity_blocked && active_sessions >= maximum_sessions && active_sessions > 0
            && retiring_sessions == active_sessions && !forced_turnover_in_progress),
{
    replacement_capacity_blocked && active_sessions >= maximum_sessions && active_sessions > 0
        && retiring_sessions == active_sessions && !forced_turnover_in_progress
}

/// Whether failed probes end a session: often enough in a row, and no channel is open.
#[verifier::allow_in_spec]
pub fn probe_failure_requires_disconnect(
    consecutive_failures: u32,
    failure_threshold: u32,
    active_channels: usize,
) -> bool
    returns
        (consecutive_failures >= failure_threshold && active_channels == 0),
{
    consecutive_failures >= failure_threshold && active_channels == 0
}

/// Twice the delay, at most `maximum`.
#[verifier::allow_in_spec]
pub fn next_backoff(current: u128, maximum: u128) -> u128
    returns
        smaller(2 * current, maximum as int) as u128,
{
    if current <= maximum / 2 {
        current * 2
    } else {
        maximum
    }
}

/// The round-trip time after one more sample, which counts for an eighth.
pub open spec fn smoothed_rtt(current: Option<u64>, sample: u64) -> u64 {
    match current {
        Some(current) => (smaller(
            smaller(7 * current, u64::MAX as int) + sample,
            u64::MAX as int,
        ) / 8) as u64,
        None => sample,
    }
}

/// The round-trip time after one more sample.
pub fn ewma_rtt(current: Option<u64>, sample: u64) -> (r: u64)
    ensures
        r == smoothed_rtt(current, sample),
{
    match current {
        Some(current) => {
            let weighted: u64 = crate::arith::saturating_product(current, 7);
            assert(weighted == smaller(7 * current, u64::MAX as int));
            weighted.saturating_add(sample) / 8
        },
        None => sample,
    }
}

/// A smoothed round-trip time lies between the value before and the sample, where both are
/// small enough for the sum not to overflow.
pub proof fn smoothed_rtt_is_between(current: u64, sample: u64)
    requires
        8 * larger(current as int, sample as int) <= u64::MAX,
    ensures
        smaller(current as int, sample as int) <= smoothed_rtt(Some(current), sample) <= larger(
            current as int,
            sample as int,
        ),
{
}

/// A pool under pressure is never one that can shrink, whatever it must hold, where a session
/// has channels at all.
pub proof fn pressure_excludes_shrinking(
    in_flight: usize,
    healthy_sessions: usize,
    minimum_sessions: usize,
    max_channels_per_session: usize,
)
    requires
        max_channels_per_session > 0,
    ensures
        !(under_pressure(in_flight, healthy_sessions, max_channels_per_session)
            && can_scale_down(
            in_flight,
            healthy_sessions,
            minimum_sessions,
            max_channels_per_session,
        )),
{
    if healthy_sessions > 0 {
        assert(3 * (healthy_sessions * max_channels_per_session) > (healthy_sessions - 1)
            * max_channels_per_session) by (nonlinear_arith)
            requires
                healthy_sessions > 0,
                max_channels_per_session > 0,
        ;
    }
}

/// A pool whose channels are all open is under pressure, and so is every pool of which at least
/// three in four are open; of which fewer are, none. Without a serving session there is none.
pub proof fn three_quarters_are_pressure(
    in_flight: usize,
    healthy_sessions: usize,
    max_channels_per_session: usize,
)
    ensures
        healthy_sessions == 0 ==> !under_pressure(
            in_flight,
            healthy_sessions,
            max_channels_per_session,
        ),
        healthy_sessions > 0 && in_flight >= healthy_sessions * max_channels_per_session
            ==> under_pressure(in_flight, healthy_sessions, max_channels_per_session),
        healthy_sessions > 0 && in_flight + in_flight + in_flight + in_flight >= healthy_sessions
            * max_channels_per_session * 3 ==> under_pressure(
            in_flight,
            healthy_sessions,
            max_channels_per_session,
        ),
        in_flight + in_flight + in_flight + in_flight < healthy_sessions * max_channels_per_session
            * 3 ==> !under_pressure(in_flight, healthy_sessions, max_channels_per_session),
{
    assert(healthy_sessions * max_channels_per_session * 3 == 3 * (healthy_sessions
        * max_channels_per_session));
    assert(healthy_sessions * max_channels_per_session >= 0) by (nonlinear_arith);
}

/// More open channels never take the pressure from a pool, and more sessions or channels to
/// serve them never put it under pressure.
pub proof fn pressure_grows_with_load(
    in_flight: usize,
    more_in_flight: usize,
    healthy_sessions: usize,
    fewer_sessions: usize,
    max_channels_per_session: usize,
    fewer_channels: usize,
)
    requires
        in_flight <= more_in_flight,
        0 < fewer_sessions <= healthy_sessions,
        fewer_channels <= max_channels_per_session,
        under_pressure(in_flight, healthy_sessions, max_channels_per_session),
    ensures
        under_pressure(more_in_flight, fewer_sessions, fewer_channels),
{
    assert(fewer_sessions * fewer_channels <= healthy_sessions * max_channels_per_session)
        by (nonlinear_arith)
        requires
            0 < fewer_sessions <= healthy_sessions,
            0 <= fewer_channels <= max_channels_per_session,
    ;
}

/// The share of open channels decides, not their number: with so many times the channels, and
/// so many times of them open, a pool is under pressure just as before.
pub proof fn pressure_is_a_share(
    in_flight: usize,
    healthy_sessions: usize,
    max_channels_per_session: usize,
    times: usize,
    scaled_in_flight: usize,
    scaled_channels: usize,
)
    requires
        times > 0,
        scaled_in_flight == times * in_flight,
        scaled_channels == times * max_channels_per_session,
    ensures
        under_pressure(scaled_in_flight, healthy_sessions, scaled_channels) == under_pressure(
            in_flight,
            healthy_sessions,
            max_channels_per_session,
        ),
{
    let (a, h, m, t) = (
        in_flight as int,
        healthy_sessions as int,
        max_channels_per_session as int,
        times as int,
    );
    assert((4 * (t * a) >= 3 * (h * (t * m))) <==> (4 * a >= 3 * (h * m))) by (nonlinear_arith)
        requires
            t > 0,
    ;
}

/// A pool can shrink just where it has a session more than it must hold, and the sessions that
/// are left would have at most one in four of their channels open.
pub proof fn a_quarter_is_room_to_shrink(
    in_flight: usize,
    healthy_sessions: usize,
    minimum_sessions: usize,
    max_channels_per_session: usize,
)
    requires
        healthy_sessions * max_channels_per_session <= usize::MAX,
    ensures
        can_scale_down(in_flight, healthy_sessions, minimum_sessions, max_channels_per_session)
            <==> minimum_sessions < healthy_sessions && in_flight + in_flight + in_flight
            + in_flight + max_channels_per_session <= healthy_sessions * max_channels_per_session,
        can_scale_down(0, healthy_sessions, minimum_sessions, max_channels_per_session)
            <==> minimum_sessions < healthy_sessions,
{
    let (h, m) = (healthy_sessions as int, max_channels_per_session as int);
    assert((h - 1) * m == h * m - m) by (nonlinear_arith);
    if h >= 1 {
        assert((h - 1) * m >= 0) by (nonlinear_arith)
            requires
                h >= 1,
                m >= 0,
        ;
    }
    if minimum_sessions < healthy_sessions {
        assert(smaller((h - 1) * m, usize::MAX as int) == (h - 1) * m);
    }
}

/// At most two sessions of a host connect at a time, from the first ones on.
pub proof fn two_sessions_connect_at_a_time(minimum: usize, connecting: usize)
    ensures
        initial_session_start_count(minimum) <= 2,
        initial_session_start_count(minimum) <= minimum,
        minimum <= 2 ==> initial_session_start_count(minimum) == minimum,
        minimum > 2 ==> initial_session_start_count(minimum) == 2,
        can_start_another_session(connecting) <==> connecting < 2,
{
}

/// A delay doubles with every failure, up to the longest one, and never gets shorter.
pub proof fn delays_double(current: u128, maximum: u128)
    requires
        current <= maximum,
        maximum <= DURATION_MAX,
    ensures
        current <= next_backoff(current, maximum) <= maximum,
        current + current <= maximum ==> next_backoff(current, maximum) == current + current,
        current + current > maximum ==> next_backoff(current, maximum) == maximum,
{
}

/// A waiting connection looks for a session twice the time that a connection through every host
/// may take, where that is a second or more: at least a second, and no less for one more host.
pub proof fn recovery_waits_for_every_hop(connect_timeouts: Seq<u128>, timeout: u128)
    requires
        0 <= total(connect_timeouts),
        total(connect_timeouts) + timeout <= DURATION_MAX / 2,
    ensures
        recovery_interval(Seq::empty()) == 1_000_000_000,
        recovery_interval(connect_timeouts) >= 1_000_000_000,
        recovery_interval(seq![timeout]) == if timeout >= 500_000_000 {
            timeout + timeout
        } else {
            1_000_000_000
        },
        recovery_interval(connect_timeouts) > 1_000_000_000 ==> recovery_interval(
            connect_timeouts.push(timeout),
        ) == recovery_interval(connect_timeouts) + timeout + timeout,
{
    reveal_with_fuel(total, 2);
    assert(seq![timeout].drop_last() =~= Seq::<u128>::empty());
    assert(connect_timeouts.push(timeout).drop_last() =~= connect_timeouts);
}

/// A failed probe ends a session just where none of its channels is open and as many probes in
/// a row have failed as are asked for.
pub proof fn only_idle_sessions_end_by_probes(failures: u32, threshold: u32, channels: usize)
    ensures
        channels > 0 ==> !probe_failure_requires_disconnect(failures, threshold, channels),
        failures < threshold ==> !probe_failure_requires_disconnect(failures, threshold, channels),
        channels == 0 && failures >= threshold ==> probe_failure_requires_disconnect(
            failures,
            threshold,
            channels,
        ),
{
}

/// Offline, nothing is started. Otherwise a waiting connection, a remote forward or what is
/// left of the start each suffice, and so does being online where changes are reported.
pub proof fn starts_need_a_network_and_a_reason(
    connectivity: ConnectivitySnapshot,
    remote: bool,
    demand: bool,
    budget: usize,
)
    ensures
        connectivity.availability == NetworkAvailability::Offline ==> !session_spawn_authorized(
            connectivity,
            remote,
            demand,
            budget,
        ),
        connectivity.availability != NetworkAvailability::Offline && (remote || demand || budget
            > 0) ==> session_spawn_authorized(connectivity, remote, demand, budget),
        connectivity.availability == NetworkAvailability::Online && connectivity.events_available
            ==> session_spawn_authorized(connectivity, remote, demand, budget),
        !remote && !demand && budget == 0 && (!connectivity.events_available
            || connectivity.availability != NetworkAvailability::Online)
            ==> !session_spawn_authorized(connectivity, remote, demand, budget),
{
}

/// Rounds come every second while there is work, every half minute while an offline host has
/// remote forwards, and every hour else.
pub proof fn rounds_have_three_paces(
    connectivity: ConnectivitySnapshot,
    remote: bool,
    background: bool,
)
    ensures
        connectivity.availability != NetworkAvailability::Offline && background
            ==> session_manager_tick_interval(connectivity, remote, background) == 1_000_000_000,
        connectivity.availability == NetworkAvailability::Offline && remote
            ==> session_manager_tick_interval(connectivity, remote, background) == 30_000_000_000,
        connectivity.availability == NetworkAvailability::Offline && !remote
            ==> session_manager_tick_interval(connectivity, remote, background)
            == 3_600_000_000_000,
        connectivity.availability != NetworkAvailability::Offline && !background
            ==> session_manager_tick_interval(connectivity, remote, background)
            == 3_600_000_000_000,
{
}

/// The first sample is taken as it is; then equal samples change nothing, a larger sample never
/// gives a smaller time, and one sample moves the time by at most an eighth of the way.
pub proof fn samples_count_for_an_eighth(current: u64, sample: u64, larger_sample: u64)
    requires
        8 * current <= u64::MAX,
        8 * larger_sample <= u64::MAX,
        sample <= larger_sample,
    ensures
        smoothed_rtt(None, sample) == sample,
        smoothed_rtt(Some(current), current) == current,
        smoothed_rtt(Some(current), sample) <= smoothed_rtt(Some(current), larger_sample),
        8 * smoothed_rtt(Some(current), sample) <= 7 * current + sample < 8 * smoothed_rtt(
            Some(current),
            sample,
        ) + 8,
{
}

} // verus!
