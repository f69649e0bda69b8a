//! The manager of the SSH sessions of one host: it answers what happens to the network, to
//! connections and to sessions, and once in a while looks after the pool. Times and durations
//! are nanoseconds.
use crate::arith::{larger, smaller};
use crate::config::SshPoolConfig;
use crate::network::{ConnectivitySnapshot, NetworkAvailability};
use crate::ssh_policy;
use crate::ssh_policy::{can_scale_down, can_start_another_session, initial_session_start_count,
    next_backoff, session_manager_tick_interval, session_manager_ticker_delay,
    session_pool_requires_forced_turnover, session_spawn_authorized, under_pressure, DURATION_MAX,
    RESUME_SETTLE_INTERVAL, SESSION_SCALE_DOWN_IDLE_INTERVAL, SESSION_SCALE_DOWN_STEP_INTERVAL,
    SECOND, SESSION_SCALE_UP_SUSTAINED_INTERVAL, SUSPECTED_SUSPEND_GAP};
use crate::ssh_pool::{is_newest_idle, is_oldest_serving, retired, rotation_progress, serving_count,
    with_session, ManagedSession, ScheduledRotationProgress, ScheduledSessionRotation,
    SessionPool, SshSessionStatus};
use vstd::prelude::*;

verus! {

/// What the manager of one host goes by.
#[derive(Debug, Clone, Copy, PartialEq, Eq, Structural)]
pub struct ManagerPolicy {
    /// The delay after the first failed start, and the longest one.
    pub initial_backoff: u128,
    pub max_backoff: u128,
    /// The least time between two starts.
    pub spawn_cooldown: u128,
    /// How long a draining session may be without progress.
    pub drain_timeout: u128,
    /// How often a session is exchanged for a new one, where that is wanted.
    pub rotation_interval: Option<u128>,
    pub min_sessions: usize,
    pub max_sessions: usize,
    pub max_channels: usize,
    /// Whether the host has remote forwards, which need a session at any time.
    pub requires_remote_availability: bool,
}

/// The state of a manager.
#[derive(Debug, Clone, Copy, PartialEq, Eq, Structural)]
pub struct SessionManager {
    pub policy: ManagerPolicy,
    pub backoff: u128,
    pub next_spawn_at: u128,
    pub next_owner_attempt: u128,
    pub next_rotation_at: Option<u128>,
    pub scheduled_rotation: Option<ScheduledSessionRotation>,
    pub desired_sessions: usize,
    pub high_pressure_since: Option<u128>,
    pub low_pressure_since: Option<u128>,
    pub next_scale_down_at: Option<u128>,
    pub connectivity: ConnectivitySnapshot,
    pub demand_pending: bool,
    pub startup_spawn_budget: usize,
    pub resume_settle_until: Option<u128>,
    pub last_tick: u128,
}

/// When the next rounds of maintenance come: the first after `delay`, then one every `period`.
#[derive(Debug, Clone, Copy, PartialEq, Eq, Structural)]
pub struct Ticker {
    pub delay: u128,
    pub period: u128,
}

impl ManagerPolicy {
    /// The durations are durations, and the pool holds at least as many sessions as it must.
    pub open spec fn wf(self) -> bool {
        &&& self.initial_backoff <= DURATION_MAX
        &&& self.max_backoff <= DURATION_MAX
        &&& self.spawn_cooldown <= DURATION_MAX
        &&& self.rotation_interval matches Some(interval) ==> interval <= DURATION_MAX
        &&& self.min_sessions <= self.max_sessions
    }

    /// What the configuration of a pool says.
    pub fn from_pool(pool: &SshPoolConfig, requires_remote_availability: bool) -> (r: ManagerPolicy)
        ensures
            r == (ManagerPolicy {
                initial_backoff: (pool.restart_initial_millis * 1_000_000) as u128,
                max_backoff: (pool.restart_max_secs * SECOND) as u128,
                spawn_cooldown: (pool.session_spawn_cooldown_millis * 1_000_000) as u128,
                drain_timeout: (pool.session_drain_timeout_secs * SECOND) as u128,
                rotation_interval: if pool.session_rotation_enabled {
                    Some((pool.session_rotation_interval_secs * SECOND) as u128)
                } else {
                    None
                },
                min_sessions: pool.min_sessions_per_host,
                max_sessions: pool.max_sessions_per_host,
                max_channels: pool.max_channels_per_session,
                requires_remote_availability,
            }),
            pool.min_sessions_per_host <= pool.max_sessions_per_host ==> r.wf(),
    {
        ManagerPolicy {
            initial_backoff: pool.restart_initial_millis as u128 * 1_000_000,
            max_backoff: pool.restart_max_secs as u128 * SECOND,
            spawn_cooldown: pool.session_spawn_cooldown_millis as u128 * 1_000_000,
            drain_timeout: pool.session_drain_timeout_secs as u128 * SECOND,
            rotation_interval: if pool.session_rotation_enabled {
                Some(pool.session_rotation_interval_secs as u128 * SECOND)
            } else {
                None
            },
            min_sessions: pool.min_sessions_per_host,
            max_sessions: pool.max_sessions_per_host,
            max_channels: pool.max_channels_per_session,
            requires_remote_availability,
        }
    }
}

impl SessionManager {
    /// The manager wants as many sessions as its policy allows.
    pub open spec fn wf(self) -> bool {
        &&& self.policy.wf()
        &&& self.backoff <= DURATION_MAX
        &&& self.policy.min_sessions <= self.desired_sessions <= self.policy.max_sessions
    }

    /// Whether sessions may be started without a serving one.
    pub open spec fn authorized(self) -> bool {
        session_spawn_authorized(
            self.connectivity,
            self.policy.requires_remote_availability,
            self.demand_pending,
            self.startup_spawn_budget,
        )
    }

    /// When the next rounds come, with or without work in the background, where the next one
    /// waits for the machine to settle.
    pub open spec fn settling_ticker(self, background: bool, now: u128) -> Ticker {
        Ticker {
            delay: session_manager_ticker_delay(self.resume_settle_until, now),
            period: session_manager_tick_interval(
                self.connectivity,
                self.policy.requires_remote_availability,
                background,
            ),
        }
    }

    /// When the next rounds come, where the next one is a whole period away.
    pub open spec fn delayed_ticker(self, background: bool) -> Ticker {
        let period = session_manager_tick_interval(
            self.connectivity,
            self.policy.requires_remote_availability,
            background,
        );
        Ticker { delay: period, period }
    }
}

// ---------------------------------------------------------------------------
// Start
// ---------------------------------------------------------------------------
/// A manager at the start, before its first sessions.
pub open spec fn initial_manager(
    policy: ManagerPolicy,
    connectivity: ConnectivitySnapshot,
    now: u128,
) -> SessionManager {
    SessionManager {
        policy,
        backoff: policy.initial_backoff,
        next_spawn_at: now,
        next_owner_attempt: now,
        next_rotation_at: match policy.rotation_interval {
            Some(interval) => Some((now + interval) as u128),
            None => None,
        },
        scheduled_rotation: None,
        desired_sessions: policy.min_sessions,
        high_pressure_since: None,
        low_pressure_since: None,
        next_scale_down_at: None,
        connectivity,
        demand_pending: false,
        startup_spawn_budget: policy.min_sessions,
        resume_settle_until: None,
        last_tick: now,
    }
}

/// How many sessions a manager starts with.
pub open spec fn initial_spawns(manager: SessionManager) -> usize {
    if manager.authorized() {
        initial_session_start_count(manager.policy.min_sessions)
    } else {
        0
    }
}

impl SessionManager {
    /// Whether sessions may be started without a serving one.
    fn is_authorized(&self) -> (r: bool)
        ensures
            r == self.authorized(),
    {
        session_spawn_authorized(
            self.connectivity,
            self.policy.requires_remote_availability,
            self.demand_pending,
            self.startup_spawn_budget,
        )
    }

    fn tick_period(&self, background: bool) -> (r: u128)
        ensures
            r == session_manager_tick_interval(
                self.connectivity,
                self.policy.requires_remote_availability,
                background,
            ),
    {
        session_manager_tick_interval(
            self.connectivity,
            self.policy.requires_remote_availability,
            background,
        )
    }

    fn ticker_after_settling(&self, background: bool, now: u128) -> (r: Ticker)
        ensures
            r == self.settling_ticker(background, now),
    {
        Ticker {
            delay: session_manager_ticker_delay(self.resume_settle_until, now),
            period: self.tick_period(background),
        }
    }

    /// Starts a manager; gives the number of sessions to start at once, and when the rounds
    /// of maintenance come.
    pub fn start(policy: ManagerPolicy, connectivity: ConnectivitySnapshot, now: u128) -> (r: (
        SessionManager,
        usize,
        Ticker,
    ))
        requires
            policy.wf(),
            now <= DURATION_MAX,
        ensures
            ({
                let initial = initial_manager(policy, connectivity, now);
                &&& r.1 == initial_spawns(initial)
                &&& r.0 == SessionManager {
                    startup_spawn_budget: (policy.min_sessions - r.1) as usize,
                    ..initial
                }
                &&& r.2 == Ticker {
                    delay: 0,
                    period: initial.settling_ticker(initial.authorized(), now).period,
                }
            }),
            r.0.wf(),
    {
        let mut manager = SessionManager {
            policy,
            backoff: policy.initial_backoff,
            next_spawn_at: now,
            next_owner_attempt: now,
            next_rotation_at: match policy.rotation_interval {
                Some(interval) => Some(now + interval),
                None => None,
            },
            scheduled_rotation: None,
            desired_sessions: policy.min_sessions,
            high_pressure_since: None,
            low_pressure_since: None,
            next_scale_down_at: None,
            connectivity,
            demand_pending: false,
            startup_spawn_budget: policy.min_sessions,
            resume_settle_until: None,
            last_tick: now,
        };
        let authorized = manager.is_authorized();
        let ticker = Ticker { delay: 0, period: manager.tick_period(authorized) };
        let spawns: usize = if authorized {
            initial_session_start_count(policy.min_sessions)
        } else {
            0
        };
        manager.startup_spawn_budget = policy.min_sessions - spawns;
        (manager, spawns, ticker)
    }
}

// ---------------------------------------------------------------------------
// Events
// ---------------------------------------------------------------------------
/// The manager after a change of the network: coming online, or back from sleep, ends every
/// wait, and a machine back from sleep is given time to settle.
pub open spec fn after_connectivity_change(
    manager: SessionManager,
    snapshot: ConnectivitySnapshot,
    now: u128,
) -> SessionManager {
    let resumed = snapshot.resumed_since(manager.connectivity);
    let woken = (manager.connectivity.is_offline() && !snapshot.is_offline()) || resumed;
    SessionManager {
        connectivity: snapshot,
        backoff: if woken {
            manager.policy.initial_backoff
        } else {
            manager.backoff
        },
        next_spawn_at: if woken {
            now
        } else {
            manager.next_spawn_at
        },
        next_owner_attempt: if woken {
            now
        } else {
            manager.next_owner_attempt
        },
        last_tick: if resumed {
            now
        } else {
            manager.last_tick
        },
        resume_settle_until: if resumed {
            Some((now + RESUME_SETTLE_INTERVAL) as u128)
        } else {
            manager.resume_settle_until
        },
        ..manager
    }
}

/// The manager after a connection asked for a session. `refreshed` is what a look at the
/// network showed, where one was due; `running` says whether sessions run.
pub open spec fn after_demand(
    manager: SessionManager,
    refreshed: Option<ConnectivitySnapshot>,
    running: bool,
    now: u128,
) -> SessionManager {
    let snapshot = match refreshed {
        Some(snapshot) => snapshot,
        None => manager.connectivity,
    };
    let woken = (manager.connectivity.is_offline() && !snapshot.is_offline()) || (
    !snapshot.events_available && !manager.policy.requires_remote_availability && !running);
    SessionManager {
        connectivity: snapshot,
        demand_pending: true,
        backoff: if woken {
            manager.policy.initial_backoff
        } else {
            manager.backoff
        },
        next_spawn_at: if woken {
            now
        } else {
            manager.next_spawn_at
        },
        ..manager
    }
}

/// The planned exchange after the session `id` has left.
pub open spec fn rotation_without(
    rotation: Option<ScheduledSessionRotation>,
    id: u64,
) -> Option<ScheduledSessionRotation> {
    match rotation {
        Some(planned) => if planned.candidate_session_id == id {
            None
        } else if planned.replacement_session_id == Some(id) {
            Some(ScheduledSessionRotation { replacement_session_id: None, ..planned })
        } else {
            Some(planned)
        },
        None => None,
    }
}

/// The manager after a session has left: a session that had been healthy is replaced after the
/// usual time, one that had not only after a delay that grows.
pub open spec fn after_session_exit(
    manager: SessionManager,
    id: u64,
    reached_healthy: bool,
    owner_lost: bool,
    now: u128,
) -> SessionManager {
    SessionManager {
        scheduled_rotation: rotation_without(manager.scheduled_rotation, id),
        next_owner_attempt: if owner_lost {
            now
        } else {
            manager.next_owner_attempt
        },
        backoff: if reached_healthy {
            manager.policy.initial_backoff
        } else {
            next_backoff(manager.backoff, manager.policy.max_backoff)
        },
        next_spawn_at: (now + if reached_healthy {
            manager.policy.spawn_cooldown
        } else {
            manager.backoff
        }) as u128,
        ..manager
    }
}

impl SessionManager {
    /// Takes in a change of the network.
    pub fn on_connectivity_change(
        &mut self,
        snapshot: ConnectivitySnapshot,
        running: bool,
        now: u128,
    ) -> (r: Ticker)
        requires
            old(self).wf(),
            now <= DURATION_MAX,
        ensures
            *final(self) == after_connectivity_change(*old(self), snapshot, now),
            r == final(self).settling_ticker(running || final(self).authorized(), now),
            final(self).wf(),
    {
        let previous = self.connectivity;
        self.connectivity = snapshot;
        let resumed = snapshot.resumed_since(previous);
        if (previous.is_offline() && !snapshot.is_offline()) || resumed {
            self.backoff = self.policy.initial_backoff;
            self.next_spawn_at = now;
            self.next_owner_attempt = now;
        }
        let background = running || self.is_authorized();
        if resumed {
            self.last_tick = now;
            self.resume_settle_until = Some(now + RESUME_SETTLE_INTERVAL);
        }
        self.ticker_after_settling(background, now)
    }

    /// Takes in that no more changes of the network will be reported.
    pub fn on_connectivity_closed(
        &mut self,
        current: ConnectivitySnapshot,
        running: bool,
        now: u128,
    ) -> (r: Ticker)
        requires
            old(self).wf(),
        ensures
            *final(self) == (SessionManager { connectivity: current, ..*old(self) }),
            r == final(self).settling_ticker(running || final(self).authorized(), now),
            final(self).wf(),
    {
        self.connectivity = current;
        let background = running || self.is_authorized();
        self.ticker_after_settling(background, now)
    }

    /// Whether a connection that asks for a session makes a look at the network due.
    pub fn demand_needs_refresh(&self) -> (r: bool)
        ensures
            r == (self.connectivity.availability != NetworkAvailability::Online
                || !self.connectivity.events_available),
    {
        self.connectivity.is_offline() || self.connectivity.availability
            == NetworkAvailability::Unknown || !self.connectivity.events_available
    }

    /// Takes in that a connection asks for a session.
    pub fn on_demand(
        &mut self,
        refreshed: Option<ConnectivitySnapshot>,
        running: bool,
        now: u128,
    ) -> (r: Ticker)
        requires
            old(self).wf(),
        ensures
            *final(self) == after_demand(*old(self), refreshed, running, now),
            r == final(self).settling_ticker(true, now),
            final(self).wf(),
    {
        self.demand_pending = true;
        let previous = self.connectivity;
        match refreshed {
            Some(snapshot) => {
                self.connectivity = snapshot;
            },
            None => {},
        }
        if (previous.is_offline() && !self.connectivity.is_offline()) || (
        !self.connectivity.events_available && !self.policy.requires_remote_availability
            && !running) {
            self.backoff = self.policy.initial_backoff;
            self.next_spawn_at = now;
        }
        self.ticker_after_settling(true, now)
    }

    /// Takes in that a session has left the pool.
    pub fn on_session_exit(
        &mut self,
        id: u64,
        reached_healthy: bool,
        owner_lost: bool,
        running: bool,
        now: u128,
    ) -> (r: Ticker)
        requires
            old(self).wf(),
            now <= DURATION_MAX,
        ensures
            *final(self) == after_session_exit(*old(self), id, reached_healthy, owner_lost, now),
            r == final(self).settling_ticker(running || final(self).authorized(), now),
            final(self).wf(),
    {
        match self.scheduled_rotation {
            Some(planned) => {
                if planned.candidate_session_id == id {
                    self.scheduled_rotation = None;
                } else if planned.replacement_session_id == Some(id) {
                    self.scheduled_rotation = Some(
                        ScheduledSessionRotation {
                            candidate_session_id: planned.candidate_session_id,
                            replacement_session_id: None,
                        },
                    );
                }
            },
            None => {},
        }
        if owner_lost {
            self.next_owner_attempt = now;
        }
        if reached_healthy {
            self.backoff = self.policy.initial_backoff;
            self.next_spawn_at = now + self.policy.spawn_cooldown;
        } else {
            self.next_spawn_at = now + self.backoff;
            self.backoff = next_backoff(self.backoff, self.policy.max_backoff);
        }
        let background = running || self.is_authorized();
        self.ticker_after_settling(background, now)
    }

    /// Takes in that the task of a session broke down.
    pub fn on_task_failure(&mut self, running: bool, now: u128) -> (r: Ticker)
        requires
            old(self).wf(),
            now <= DURATION_MAX,
        ensures
            *final(self) == (SessionManager {
                next_spawn_at: (now + old(self).backoff) as u128,
                backoff: next_backoff(old(self).backoff, old(self).policy.max_backoff),
                ..*old(self)
            }),
            r == final(self).settling_ticker(running || final(self).authorized(), now),
            final(self).wf(),
    {
        self.next_spawn_at = now + self.backoff;
        self.backoff = next_backoff(self.backoff, self.policy.max_backoff);
        let background = running || self.is_authorized();
        self.ticker_after_settling(background, now)
    }
}

// ---------------------------------------------------------------------------
// A round of maintenance: the network
// ---------------------------------------------------------------------------
/// Whether a round at `now` finds that the machine was asleep since the last one.
pub open spec fn slept(manager: SessionManager, running: bool, now: u128) -> bool {
    &&& !manager.connectivity.is_offline()
    &&& running || manager.authorized()
    &&& now - manager.last_tick >= SUSPECTED_SUSPEND_GAP
}

impl SessionManager {
    /// Begins a round; tells whether the machine was asleep since the last one. Then the
    /// round ends with `on_resume_gap`, else it goes on with `on_tick_connectivity`.
    pub fn begin_tick(&mut self, running: bool, now: u128) -> (r: bool)
        requires
            old(self).wf(),
        ensures
            r == slept(*old(self), running, now),
            *final(self) == (SessionManager { last_tick: now, ..*old(self) }),
            final(self).wf(),
    {
        let active = !self.connectivity.is_offline() && (running || self.is_authorized());
        let gap: u128 = now.saturating_sub(self.last_tick);
        self.last_tick = now;
        active && gap >= SUSPECTED_SUSPEND_GAP
    }

    /// Ends a round after sleep: the machine is given time to settle.
    pub fn on_resume_gap(&mut self, refreshed: ConnectivitySnapshot, now: u128) -> (r: Ticker)
        requires
            old(self).wf(),
            now <= DURATION_MAX,
        ensures
            *final(self) == (SessionManager {
                connectivity: refreshed,
                resume_settle_until: Some((now + RESUME_SETTLE_INTERVAL) as u128),
                ..*old(self)
            }),
            r == final(self).settling_ticker(true, now),
            final(self).wf(),
    {
        self.connectivity = refreshed;
        self.resume_settle_until = Some(now + RESUME_SETTLE_INTERVAL);
        self.ticker_after_settling(true, now)
    }

    /// Takes in the network as it is in a round; tells whether a look at it is due, because
    /// it is offline and the host has remote forwards.
    pub fn on_tick_connectivity(&mut self, current: ConnectivitySnapshot, now: u128) -> (r: bool)
        requires
            old(self).wf(),
        ensures
            r == (current.is_offline() && old(self).policy.requires_remote_availability),
            *final(self) == (SessionManager {
                connectivity: current,
                resume_settle_until: match old(self).resume_settle_until {
                    Some(deadline) => if now >= deadline {
                        None
                    } else {
                        Some(deadline)
                    },
                    None => None,
                },
                ..*old(self)
            }),
            final(self).wf(),
    {
        self.connectivity = current;
        match self.resume_settle_until {
            Some(deadline) => {
                if now >= deadline {
                    self.resume_settle_until = None;
                }
            },
            None => {},
        }
        current.is_offline() && self.policy.requires_remote_availability
    }

    /// Takes in what the look at the network showed, where one was due. Offline, the round
    /// ends here, and this says when the next ones come.
    pub fn on_offline_refresh(&mut self, refreshed: Option<ConnectivitySnapshot>) -> (r: Option<
        Ticker,
    >)
        requires
            old(self).wf(),
        ensures
            final(self).connectivity == (match refreshed {
                Some(snapshot) => snapshot,
                None => old(self).connectivity,
            }),
            *final(self) == (SessionManager {
                connectivity: final(self).connectivity,
                ..*old(self)
            }),
            r == if final(self).connectivity.is_offline() {
                Some(final(self).delayed_ticker(false))
            } else {
                None
            },
            final(self).wf(),
    {
        match refreshed {
            Some(snapshot) => {
                self.connectivity = snapshot;
            },
            None => {},
        }
        if self.connectivity.is_offline() {
            let period = self.tick_period(false);
            Some(Ticker { delay: period, period })
        } else {
            None
        }
    }

    /// Whether the remote forwards are to be looked after.
    pub fn owner_attempt_due(&self, now: u128) -> (r: bool)
        ensures
            r == (now >= self.next_owner_attempt),
    {
        now >= self.next_owner_attempt
    }

    /// Takes in that the remote forwards could not be handed over.
    pub fn owner_attempt_failed(&mut self, now: u128)
        requires
            old(self).wf(),
            now <= DURATION_MAX,
        ensures
            *final(self) == (SessionManager {
                next_owner_attempt: (now + old(self).policy.spawn_cooldown) as u128,
                ..*old(self)
            }),
            final(self).wf(),
    {
        self.next_owner_attempt = now + self.policy.spawn_cooldown;
    }

    /// Ends a round.
    pub fn end_tick(&self, running: bool) -> (r: Ticker)
        ensures
            r == self.delayed_ticker(running || self.authorized()),
    {
        let background = running || self.is_authorized();
        let period = self.tick_period(background);
        Ticker { delay: period, period }
    }
}

// ---------------------------------------------------------------------------
// A round of maintenance: the sessions
// ---------------------------------------------------------------------------
/// What a round counts.
#[derive(Debug, Clone, Copy, PartialEq, Eq, Structural)]
pub struct PoolCounts {
    /// Sessions that are not offline, and those of them that are to stay or to leave.
    pub active: usize,
    pub active_staying: usize,
    pub active_leaving: usize,
    /// Sessions that are to stay and serve, or connect.
    pub healthy: usize,
    pub connecting: usize,
    /// The open channels of the serving sessions.
    pub in_flight: usize,
    /// Some session is to leave.
    pub retirement_pending: bool,
    /// Some session is being put out.
    pub forced_turnover: bool,
}

/// What a round counts sessions by.
pub ghost enum Kind {
    Active,
    ActiveStaying,
    ActiveLeaving,
    Connecting,
}

impl Kind {
    /// Whether `session` is of the kind.
    pub open spec fn has(self, session: ManagedSession) -> bool {
        let active = session.state.status != SshSessionStatus::Offline;
        match self {
            Kind::Active => active,
            Kind::ActiveStaying => active && !session.retire_requested,
            Kind::ActiveLeaving => active && session.retire_requested,
            Kind::Connecting => session.state.status == SshSessionStatus::Connecting
                && !session.retire_requested,
        }
    }
}

/// The number of sessions of a kind.
pub open spec fn count(sessions: Seq<ManagedSession>, kind: Kind) -> int
    decreases sessions.len(),
{
    if sessions.len() == 0 {
        0
    } else {
        count(sessions.drop_last(), kind) + if kind.has(sessions.last()) {
            1int
        } else {
            0
        }
    }
}

/// The open channels of the serving sessions.
pub open spec fn serving_in_flight(sessions: Seq<ManagedSession>) -> int
    decreases sessions.len(),
{
    if sessions.len() == 0 {
        0
    } else {
        serving_in_flight(sessions.drop_last()) + if sessions.last().serves() {
            sessions.last().in_flight as int
        } else {
            0
        }
    }
}

/// Some session is to leave.
pub open spec fn some_leaving(sessions: Seq<ManagedSession>) -> bool
    decreases sessions.len(),
{
    sessions.len() > 0 && (some_leaving(sessions.drop_last()) || sessions.last().retire_requested)
}

/// Some session is being put out.
pub open spec fn some_put_out(sessions: Seq<ManagedSession>) -> bool
    decreases sessions.len(),
{
    sessions.len() > 0 && (some_put_out(sessions.drop_last())
        || sessions.last().state.forced_turnover_requested)
}

impl PoolCounts {
    /// The counts are those of `sessions`.
    pub open spec fn of(self, sessions: Seq<ManagedSession>) -> bool {
        &&& self.active == count(sessions, Kind::Active)
        &&& self.active_staying == count(sessions, Kind::ActiveStaying)
        &&& self.active_leaving == count(sessions, Kind::ActiveLeaving)
        &&& self.connecting == count(sessions, Kind::Connecting)
        &&& self.healthy == serving_count(sessions)
        &&& self.in_flight == smaller(serving_in_flight(sessions), usize::MAX as int)
        &&& self.retirement_pending == some_leaving(sessions)
        &&& self.forced_turnover == some_put_out(sessions)
    }
}

/// Counts the sessions of a pool.
pub fn count_sessions(sessions: &Vec<ManagedSession>) -> (r: PoolCounts)
    ensures
        r.of(sessions@),
{
    let mut r = PoolCounts {
        active: 0,
        active_staying: 0,
        active_leaving: 0,
        healthy: 0,
        connecting: 0,
        in_flight: 0,
        retirement_pending: false,
        forced_turnover: false,
    };
    for i in 0..sessions.len()
        invariant
            r.of(sessions@.take(i as int)),
            r.active <= i,
            r.active_staying <= i,
            r.active_leaving <= i,
            r.healthy <= i,
            r.connecting <= i,
    {
        let session = &sessions[i];
        let ghost next = sessions@.take(i + 1);
        assert(next.drop_last() == sessions@.take(i as int));
        assert(next.last() == sessions@[i as int]);
        if session.state.status != SshSessionStatus::Offline {
            r.active = r.active + 1;
            if !session.retire_requested {
                r.active_staying = r.active_staying + 1;
            } else {
                r.active_leaving = r.active_leaving + 1;
            }
        }
        if session.is_serving() {
            r.healthy = r.healthy + 1;
            r.in_flight = r.in_flight.saturating_add(session.in_flight);
        }
        if session.state.status == SshSessionStatus::Connecting && !session.retire_requested {
            r.connecting = r.connecting + 1;
        }
        r.retirement_pending = r.retirement_pending || session.retire_requested;
        r.forced_turnover = r.forced_turnover || session.state.forced_turnover_requested;
    }
    assert(sessions@.take(sessions@.len() as int) == sessions@);
    r
}

/// What a round decides: the session to start, the session that is to leave because the pool
/// shrinks, whether a session is to be put out, and how many sessions must serve for others to
/// be drained.
#[derive(Debug, Clone, Copy, PartialEq, Eq, Structural)]
pub struct TickPlan {
    pub spawn: Option<u64>,
    pub retire: Option<u64>,
    pub force_turnover: bool,
    pub drain_minimum: usize,
}

/// What a round goes by once it has counted: the sessions that serve after a planned exchange
/// has moved on, whether sessions are to leave, and whether sessions may be started.
#[derive(Debug, Clone, Copy, PartialEq, Eq, Structural)]
pub struct TickFacts {
    pub counts: PoolCounts,
    pub healthy: usize,
    pub leaving: bool,
    pub may_spawn: bool,
    pub oldest: Option<u64>,
    pub newest_idle: Option<u64>,
    pub session_id: u64,
    pub now: u128,
}

/// A serving session settles the wish of every connection, and too few of them put a planned
/// exchange off.
pub open spec fn after_counting(manager: SessionManager, counts: PoolCounts) -> SessionManager {
    SessionManager {
        demand_pending: manager.demand_pending && counts.healthy == 0,
        scheduled_rotation: if counts.healthy < manager.policy.min_sessions {
            None
        } else {
            manager.scheduled_rotation
        },
        ..manager
    }
}

/// How far the planned exchange has come; no exchange waits.
pub open spec fn planned_progress(
    manager: SessionManager,
    sessions: Seq<ManagedSession>,
) -> ScheduledRotationProgress {
    match manager.scheduled_rotation {
        Some(rotation) => rotation_progress(sessions, rotation),
        None => ScheduledRotationProgress::Waiting,
    }
}

/// An exchange that is made or cancelled is no longer planned.
pub open spec fn after_progress(
    manager: SessionManager,
    progress: ScheduledRotationProgress,
) -> SessionManager {
    SessionManager {
        scheduled_rotation: if progress == ScheduledRotationProgress::Waiting {
            manager.scheduled_rotation
        } else {
            None
        },
        ..manager
    }
}

/// Since when the pool is under pressure, or could shrink.
pub open spec fn after_pressure(manager: SessionManager, facts: TickFacts) -> SessionManager {
    let pressed = under_pressure(
        facts.counts.in_flight,
        facts.healthy,
        manager.policy.max_channels,
    );
    let idle = !pressed && can_scale_down(
        facts.counts.in_flight,
        facts.healthy,
        manager.policy.min_sessions,
        manager.policy.max_channels,
    );
    SessionManager {
        high_pressure_since: if pressed {
            Some(since(manager.high_pressure_since, facts.now))
        } else {
            None
        },
        low_pressure_since: if idle {
            Some(since(manager.low_pressure_since, facts.now))
        } else {
            None
        },
        next_scale_down_at: if idle {
            manager.next_scale_down_at
        } else {
            None
        },
        ..manager
    }
}

/// The time noted, or now.
pub open spec fn since(noted: Option<u128>, now: u128) -> u128 {
    match noted {
        Some(at) => at,
        None => now,
    }
}

/// Whether `noted` is at least `duration` ago.
pub open spec fn lasted(noted: Option<u128>, now: u128, duration: u128) -> bool {
    noted matches Some(at) && larger(now - at, 0) >= duration
}

/// Whether the time has come to exchange the oldest serving session.
pub open spec fn rotation_due(manager: SessionManager, facts: TickFacts) -> bool {
    &&& manager.next_rotation_at matches Some(at) && facts.now >= at
    &&& facts.may_spawn
    &&& manager.scheduled_rotation is None
    &&& !facts.leaving
    &&& facts.healthy >= manager.policy.min_sessions
    &&& facts.counts.active < manager.policy.max_sessions
    &&& facts.oldest is Some
}

/// The exchange of the oldest serving session is planned when its time has come.
pub open spec fn after_scheduling(manager: SessionManager, facts: TickFacts) -> SessionManager {
    if rotation_due(manager, facts) {
        SessionManager {
            scheduled_rotation: Some(
                ScheduledSessionRotation {
                    candidate_session_id: facts.oldest->0,
                    replacement_session_id: None,
                },
            ),
            next_rotation_at: match manager.policy.rotation_interval {
                Some(interval) => Some((facts.now + interval) as u128),
                None => None,
            },
            ..manager
        }
    } else {
        manager
    }
}

/// There is a free slot, and fewer sessions are there to stay than are wanted.
pub open spec fn needs_desired(manager: SessionManager, facts: TickFacts) -> bool {
    facts.counts.active_staying < manager.desired_sessions && facts.counts.active
        < manager.policy.max_sessions
}

/// There is a free slot, and a planned exchange has no new session yet.
pub open spec fn needs_replacement(manager: SessionManager, facts: TickFacts) -> bool {
    (manager.scheduled_rotation matches Some(rotation) && rotation.replacement_session_id is None)
        && facts.counts.active < manager.policy.max_sessions
}

/// There is a free slot, nothing else is to be started, and the pressure has lasted.
pub open spec fn needs_elastic(manager: SessionManager, facts: TickFacts) -> bool {
    &&& manager.scheduled_rotation is None
    &&& !needs_desired(manager, facts)
    &&& !needs_replacement(manager, facts)
    &&& lasted(manager.high_pressure_since, facts.now, SESSION_SCALE_UP_SUSTAINED_INTERVAL)
    &&& facts.counts.connecting == 0
    &&& facts.counts.active < manager.policy.max_sessions
}

/// Whether a session is started.
pub open spec fn spawns(manager: SessionManager, facts: TickFacts) -> bool {
    &&& needs_desired(manager, facts) || needs_replacement(manager, facts) || needs_elastic(
        manager,
        facts,
    )
    &&& facts.may_spawn
    &&& can_start_another_session(facts.counts.connecting)
    &&& facts.now >= manager.next_spawn_at
}

/// The manager after a session was started, where one was.
pub open spec fn after_spawn(manager: SessionManager, facts: TickFacts) -> SessionManager {
    if spawns(manager, facts) {
        let elastic = needs_elastic(manager, facts);
        SessionManager {
            scheduled_rotation: if needs_replacement(manager, facts) {
                Some(
                    ScheduledSessionRotation {
                        replacement_session_id: Some(facts.session_id),
                        ..manager.scheduled_rotation->0
                    },
                )
            } else {
                manager.scheduled_rotation
            },
            desired_sessions: if elastic {
                smaller(manager.desired_sessions + 1, manager.policy.max_sessions as int) as usize
            } else {
                manager.desired_sessions
            },
            high_pressure_since: if elastic {
                None
            } else {
                manager.high_pressure_since
            },
            startup_spawn_budget: larger(manager.startup_spawn_budget - 1, 0) as usize,
            demand_pending: false,
            next_spawn_at: (facts.now + manager.policy.spawn_cooldown) as u128,
            ..manager
        }
    } else {
        manager
    }
}

/// Whether the pool shrinks by an idle session.
pub open spec fn shrinks(manager: SessionManager, facts: TickFacts) -> bool {
    &&& manager.scheduled_rotation is None
    &&& !facts.leaving
    &&& facts.counts.connecting == 0
    &&& manager.desired_sessions > manager.policy.min_sessions
    &&& lasted(manager.low_pressure_since, facts.now, SESSION_SCALE_DOWN_IDLE_INTERVAL)
    &&& manager.next_scale_down_at matches Some(at) ==> facts.now >= at
    &&& facts.newest_idle is Some
}

/// The manager after the pool shrank, where it did.
pub open spec fn after_shrinking(manager: SessionManager, facts: TickFacts) -> SessionManager {
    if shrinks(manager, facts) {
        SessionManager {
            desired_sessions: larger(
                manager.desired_sessions - 1,
                manager.policy.min_sessions as int,
            ) as usize,
            next_scale_down_at: Some((facts.now + SESSION_SCALE_DOWN_STEP_INTERVAL) as u128),
            ..manager
        }
    } else {
        manager
    }
}

/// Sessions are to leave, and their replacements find no free slot.
pub open spec fn replacement_blocked(
    manager: SessionManager,
    facts: TickFacts,
    leaving: bool,
) -> bool {
    leaving && facts.counts.active >= manager.policy.max_sessions && facts.counts.active_staying
        < manager.desired_sessions && facts.counts.connecting == 0
}

/// A round of maintenance: the manager after it, and what it decides.
pub open spec fn tick(manager: SessionManager, facts: TickFacts) -> (SessionManager, TickPlan) {
    let scheduled = after_scheduling(after_pressure(manager, facts), facts);
    let spawned = after_spawn(scheduled, facts);
    let shrunk = after_shrinking(spawned, facts);
    let blocked = replacement_blocked(shrunk, facts, facts.leaving || shrinks(spawned, facts));
    (
        shrunk,
        TickPlan {
            spawn: if spawns(scheduled, facts) {
                Some(facts.session_id)
            } else {
                None
            },
            retire: if shrinks(spawned, facts) {
                facts.newest_idle
            } else {
                None
            },
            force_turnover: session_pool_requires_forced_turnover(
                facts.counts.active,
                facts.counts.active_leaving,
                manager.policy.max_sessions,
                blocked,
                facts.counts.forced_turnover,
            ),
            drain_minimum: if blocked {
                0
            } else {
                shrunk.desired_sessions
            },
        },
    )
}

/// What a round goes by, given its counts and choices.
pub open spec fn tick_facts(
    manager: SessionManager,
    counts: PoolCounts,
    progress: ScheduledRotationProgress,
    oldest: Option<u64>,
    newest_idle: Option<u64>,
    session_id: u64,
    now: u128,
) -> TickFacts {
    let activated = progress == ScheduledRotationProgress::Activated;
    TickFacts {
        counts,
        healthy: if activated {
            larger(counts.healthy - 1, 0) as usize
        } else {
            counts.healthy
        },
        leaving: counts.retirement_pending || activated,
        may_spawn: counts.healthy > 0 || manager.authorized(),
        oldest,
        newest_idle,
        session_id,
        now,
    }
}

/// The sessions after a round: that of a planned exchange that is made, and that by which the
/// pool shrinks, are to leave.
pub open spec fn tick_sessions(
    sessions: Seq<ManagedSession>,
    manager: SessionManager,
    progress: ScheduledRotationProgress,
    plan: TickPlan,
    now: u128,
) -> Seq<ManagedSession> {
    let rotated = match manager.scheduled_rotation {
        Some(rotation) => if progress == ScheduledRotationProgress::Activated {
            with_session(
                sessions,
                rotation.candidate_session_id,
                |s: ManagedSession| retired(s, now),
            )
        } else {
            sessions
        },
        None => sessions,
    };
    match plan.retire {
        Some(id) => with_session(rotated, id, |s: ManagedSession| retired(s, now)),
        None => rotated,
    }
}

/// A round with the given counts and choices takes the manager `before` to `after` and the
/// sessions `sessions` to `left`, and decides `plan`.
pub open spec fn is_round(
    before: SessionManager,
    sessions: Seq<ManagedSession>,
    counts: PoolCounts,
    oldest: Option<u64>,
    newest_idle: Option<u64>,
    session_id: u64,
    now: u128,
    after: SessionManager,
    plan: TickPlan,
    left: Seq<ManagedSession>,
) -> bool {
    let counted = after_counting(before, counts);
    let progress = planned_progress(counted, sessions);
    let facts = tick_facts(counted, counts, progress, oldest, newest_idle, session_id, now);
    &&& (after, plan) == tick(after_progress(counted, progress), facts)
    &&& left == tick_sessions(sessions, counted, progress, plan, now)
}

impl SessionManager {
    fn track_pressure(&mut self, facts: TickFacts)
        requires
            old(self).wf(),
        ensures
            *final(self) == after_pressure(*old(self), facts),
            final(self).wf(),
    {
        let pressed = ssh_policy::session_pool_is_under_pressure(
            facts.counts.in_flight,
            facts.healthy,
            self.policy.max_channels,
        );
        let idle = !pressed && ssh_policy::session_pool_can_scale_down(
            facts.counts.in_flight,
            facts.healthy,
            self.policy.min_sessions,
            self.policy.max_channels,
        );
        if pressed {
            if self.high_pressure_since.is_none() {
                self.high_pressure_since = Some(facts.now);
            }
        } else {
            self.high_pressure_since = None;
        }
        if idle {
            if self.low_pressure_since.is_none() {
                self.low_pressure_since = Some(facts.now);
            }
        } else {
            self.low_pressure_since = None;
            self.next_scale_down_at = None;
        }
    }

    fn schedule_rotation(&mut self, facts: TickFacts)
        requires
            old(self).wf(),
            facts.now <= DURATION_MAX,
        ensures
            *final(self) == after_scheduling(*old(self), facts),
            final(self).wf(),
    {
        let reached = match self.next_rotation_at {
            Some(at) => facts.now >= at,
            None => false,
        };
        match facts.oldest {
            Some(candidate_session_id) => {
                if reached && facts.may_spawn && self.scheduled_rotation.is_none()
                    && !facts.leaving && facts.healthy >= self.policy.min_sessions
                    && facts.counts.active < self.policy.max_sessions {
                    self.scheduled_rotation = Some(
                        ScheduledSessionRotation {
                            candidate_session_id,
                            replacement_session_id: None,
                        },
                    );
                    self.next_rotation_at = match self.policy.rotation_interval {
                        Some(interval) => Some(facts.now + interval),
                        None => None,
                    };
                }
            },
            None => {},
        }
    }

    fn start_session(&mut self, facts: TickFacts) -> (started: bool)
        requires
            old(self).wf(),
            facts.now <= DURATION_MAX,
        ensures
            started == spawns(*old(self), facts),
            *final(self) == after_spawn(*old(self), facts),
            final(self).wf(),
    {
        let free_slot = facts.counts.active < self.policy.max_sessions;
        let desired = facts.counts.active_staying < self.desired_sessions && free_slot;
        let replacement = free_slot && match self.scheduled_rotation {
            Some(rotation) => rotation.replacement_session_id.is_none(),
            None => false,
        };
        let pressure_lasted = match self.high_pressure_since {
            Some(at) => facts.now.saturating_sub(at) >= SESSION_SCALE_UP_SUSTAINED_INTERVAL,
            None => false,
        };
        let elastic = self.scheduled_rotation.is_none() && !desired && !replacement
            && pressure_lasted && facts.counts.connecting == 0 && free_slot;
        if !((desired || replacement || elastic) && facts.may_spawn && can_start_another_session(
            facts.counts.connecting,
        ) && facts.now >= self.next_spawn_at) {
            return false;
        }
        if replacement {
            match self.scheduled_rotation {
                Some(rotation) => {
                    self.scheduled_rotation = Some(
                        ScheduledSessionRotation {
                            candidate_session_id: rotation.candidate_session_id,
                            replacement_session_id: Some(facts.session_id),
                        },
                    );
                },
                None => {},
            }
        }
        if elastic {
            if self.desired_sessions < self.policy.max_sessions {
                self.desired_sessions = self.desired_sessions + 1;
            }
            self.high_pressure_since = None;
        }
        self.startup_spawn_budget = self.startup_spawn_budget.saturating_sub(1);
        self.demand_pending = false;
        self.next_spawn_at = facts.now + self.policy.spawn_cooldown;
        true
    }

    fn shrink(&mut self, facts: TickFacts) -> (shrunk: bool)
        requires
            old(self).wf(),
            facts.now <= DURATION_MAX,
        ensures
            shrunk == shrinks(*old(self), facts),
            *final(self) == after_shrinking(*old(self), facts),
            final(self).wf(),
    {
        let idle_lasted = match self.low_pressure_since {
            Some(at) => facts.now.saturating_sub(at) >= SESSION_SCALE_DOWN_IDLE_INTERVAL,
            None => false,
        };
        let step_reached = match self.next_scale_down_at {
            Some(at) => facts.now >= at,
            None => true,
        };
        if !(self.scheduled_rotation.is_none() && !facts.leaving && facts.counts.connecting == 0
            && self.desired_sessions > self.policy.min_sessions && idle_lasted && step_reached
            && facts.newest_idle.is_some()) {
            return false;
        }
        self.desired_sessions = self.desired_sessions - 1;
        self.next_scale_down_at = Some(facts.now + SESSION_SCALE_DOWN_STEP_INTERVAL);
        true
    }

    fn decide_tick(&mut self, facts: TickFacts) -> (plan: TickPlan)
        requires
            old(self).wf(),
            facts.now <= DURATION_MAX,
        ensures
            (*final(self), plan) == tick(*old(self), facts),
            final(self).wf(),
    {
        self.track_pressure(facts);
        self.schedule_rotation(facts);
        let started = self.start_session(facts);
        let shrunk = self.shrink(facts);
        let blocked = (facts.leaving || shrunk) && facts.counts.active >= self.policy.max_sessions
            && facts.counts.active_staying < self.desired_sessions && facts.counts.connecting == 0;
        TickPlan {
            spawn: if started {
                Some(facts.session_id)
            } else {
                None
            },
            retire: if shrunk {
                facts.newest_idle
            } else {
                None
            },
            force_turnover: session_pool_requires_forced_turnover(
                facts.counts.active,
                facts.counts.active_leaving,
                self.policy.max_sessions,
                blocked,
                facts.counts.forced_turnover,
            ),
            drain_minimum: if blocked {
                0
            } else {
                self.desired_sessions
            },
        }
    }

    /// A round of maintenance of the sessions. `session_id` is the id of the session that the
    /// round may start; the caller starts it, and takes it into the pool.
    pub fn plan_tick(&mut self, pool: &mut SessionPool, session_id: u64, now: u128) -> (plan:
        TickPlan)
        requires
            old(self).wf(),
            now <= DURATION_MAX,
        ensures
            final(self).wf(),
            final(pool).remote_owner == old(pool).remote_owner,
            exists|counts: PoolCounts, oldest: Option<u64>, newest_idle: Option<u64>|
                {
                    &&& #[trigger] counts.of(old(pool).sessions@)
                    &&& #[trigger] is_oldest_serving(old(pool).sessions@, oldest)
                    &&& #[trigger] is_newest_idle(
                        old(pool).sessions@,
                        old(pool).remote_owner,
                        old(self).policy.min_sessions,
                        newest_idle,
                    )
                    &&& is_round(
                        *old(self),
                        old(pool).sessions@,
                        counts,
                        oldest,
                        newest_idle,
                        session_id,
                        now,
                        *final(self),
                        plan,
                        final(pool).sessions@,
                    )
                },
    {
        let ghost start = *self;
        let ghost sessions = pool.sessions@;
        let counts = count_sessions(&pool.sessions);
        let oldest = pool.oldest_healthy_session_id();
        let newest_idle = pool.newest_idle_elastic_session_id(self.policy.min_sessions);

        if counts.healthy > 0 {
            self.demand_pending = false;
        }
        let may_spawn = counts.healthy > 0 || self.is_authorized();
        if counts.healthy < self.policy.min_sessions {
            self.scheduled_rotation = None;
        }
        let ghost counted = *self;
        assert(counted == after_counting(start, counts));

        let mut healthy: usize = counts.healthy;
        let mut leaving = counts.retirement_pending;
        let ghost progress = planned_progress(counted, sessions);
        match self.scheduled_rotation {
            Some(rotation) => match pool.advance_scheduled_session_rotation(rotation, now) {
                ScheduledRotationProgress::Waiting => {},
                ScheduledRotationProgress::Activated => {
                    self.scheduled_rotation = None;
                    leaving = true;
                    healthy = healthy.saturating_sub(1);
                },
                ScheduledRotationProgress::Cancelled => {
                    self.scheduled_rotation = None;
                },
            },
            None => {},
        }
        let facts = TickFacts {
            counts,
            healthy,
            leaving,
            may_spawn,
            oldest,
            newest_idle,
            session_id,
            now,
        };
        assert(facts == tick_facts(
            counted,
            counts,
            progress,
            oldest,
            newest_idle,
            session_id,
            now,
        ));
        assert(*self == after_progress(counted, progress));
        let plan = self.decide_tick(facts);
        match plan.retire {
            Some(id) => pool.request_session_retirement(id, now),
            None => {},
        }
        plan
    }
}

// ---------------------------------------------------------------------------
// What every round keeps
// ---------------------------------------------------------------------------
/// A round starts a session only while fewer sessions are active than the pool may hold, and
/// fewer are connecting than may at a time.
pub proof fn starts_are_bounded(
    before: SessionManager,
    sessions: Seq<ManagedSession>,
    counts: PoolCounts,
    oldest: Option<u64>,
    newest_idle: Option<u64>,
    session_id: u64,
    now: u128,
    after: SessionManager,
    plan: TickPlan,
    left: Seq<ManagedSession>,
)
    requires
        counts.of(sessions),
        is_round(
            before,
            sessions,
            counts,
            oldest,
            newest_idle,
            session_id,
            now,
            after,
            plan,
            left,
        ),
        plan.spawn is Some,
    ensures
        plan.spawn == Some(session_id),
        count(sessions, Kind::Active) < before.policy.max_sessions,
        count(sessions, Kind::Connecting)
            < ssh_policy::MAX_CONCURRENT_SESSION_STARTS_PER_HOST,
        now >= before.next_spawn_at,
{
}

/// Offline, and without a serving session, a round starts nothing.
pub proof fn offline_pool_starts_nothing(
    before: SessionManager,
    sessions: Seq<ManagedSession>,
    counts: PoolCounts,
    oldest: Option<u64>,
    newest_idle: Option<u64>,
    session_id: u64,
    now: u128,
    after: SessionManager,
    plan: TickPlan,
    left: Seq<ManagedSession>,
)
    requires
        counts.of(sessions),
        is_round(
            before,
            sessions,
            counts,
            oldest,
            newest_idle,
            session_id,
            now,
            after,
            plan,
            left,
        ),
        before.connectivity.is_offline(),
        serving_count(sessions) == 0,
    ensures
        plan.spawn is None,
{
}

/// Two rounds that start a session, with no event between them, are the usual time apart.
pub proof fn starts_are_apart(
    before: SessionManager,
    sessions: Seq<ManagedSession>,
    counts: PoolCounts,
    oldest: Option<u64>,
    newest_idle: Option<u64>,
    session_id: u64,
    now: u128,
    between: SessionManager,
    plan: TickPlan,
    left: Seq<ManagedSession>,
    sessions2: Seq<ManagedSession>,
    counts2: PoolCounts,
    oldest2: Option<u64>,
    newest_idle2: Option<u64>,
    session_id2: u64,
    now2: u128,
    after: SessionManager,
    plan2: TickPlan,
    left2: Seq<ManagedSession>,
)
    requires
        before.wf(),
        now <= DURATION_MAX,
        is_round(
            before,
            sessions,
            counts,
            oldest,
            newest_idle,
            session_id,
            now,
            between,
            plan,
            left,
        ),
        is_round(
            between,
            sessions2,
            counts2,
            oldest2,
            newest_idle2,
            session_id2,
            now2,
            after,
            plan2,
            left2,
        ),
        plan.spawn is Some,
        plan2.spawn is Some,
    ensures
        now2 >= now + before.policy.spawn_cooldown,
{
}

/// The pool shrinks only by an idle serving session that does not hold the remote forwards,
/// and only while more sessions serve than the pool must hold.
pub proof fn shrinking_spares_busy_sessions(
    before: SessionManager,
    sessions: Seq<ManagedSession>,
    owner: Option<u64>,
    counts: PoolCounts,
    oldest: Option<u64>,
    newest_idle: Option<u64>,
    session_id: u64,
    now: u128,
    after: SessionManager,
    plan: TickPlan,
    left: Seq<ManagedSession>,
)
    requires
        counts.of(sessions),
        is_newest_idle(sessions, owner, before.policy.min_sessions, newest_idle),
        is_round(
            before,
            sessions,
            counts,
            oldest,
            newest_idle,
            session_id,
            now,
            after,
            plan,
            left,
        ),
        plan.retire is Some,
    ensures
        serving_count(sessions) > before.policy.min_sessions,
        exists|i: int|
            0 <= i < sessions.len() && (#[trigger] sessions[i]).id == plan.retire->0
                && sessions[i].serves() && sessions[i].in_flight == 0 && owner
                != Some(sessions[i].id),
        !some_leaving(sessions),
        count(sessions, Kind::Connecting) == 0,
{
    let i = choose|i: int|
        0 <= i < sessions.len() && crate::ssh_pool::is_idle_elastic(
            #[trigger] sessions[i],
            owner,
        ) && sessions[i].id == newest_idle->0;
    assert(sessions[i].id == plan.retire->0);
}

/// A round that finds the pool under pressure does not find it idle: of the two times that the
/// manager notes, at most one is noted.
pub proof fn pressure_and_idleness_exclude_each_other(
    before: SessionManager,
    sessions: Seq<ManagedSession>,
    counts: PoolCounts,
    oldest: Option<u64>,
    newest_idle: Option<u64>,
    session_id: u64,
    now: u128,
    after: SessionManager,
    plan: TickPlan,
    left: Seq<ManagedSession>,
)
    requires
        is_round(
            before,
            sessions,
            counts,
            oldest,
            newest_idle,
            session_id,
            now,
            after,
            plan,
            left,
        ),
    ensures
        !(after.high_pressure_since is Some && after.low_pressure_since is Some),
{
}

/// The old session of a planned exchange is asked to leave only once the new one serves.
pub proof fn rotation_waits_for_a_serving_replacement(
    manager: SessionManager,
    sessions: Seq<ManagedSession>,
)
    requires
        planned_progress(manager, sessions) == ScheduledRotationProgress::Activated,
    ensures
        manager.scheduled_rotation matches Some(rotation) && (
        rotation.replacement_session_id matches Some(id) && (crate::ssh_pool::find_session(
            sessions,
            id,
        ) matches Some(s) && s.serves())),
{
}

/// A session is put out only where the pool is full and every active session is to leave.
pub proof fn turnover_needs_a_pool_full_of_leaving_sessions(
    before: SessionManager,
    sessions: Seq<ManagedSession>,
    counts: PoolCounts,
    oldest: Option<u64>,
    newest_idle: Option<u64>,
    session_id: u64,
    now: u128,
    after: SessionManager,
    plan: TickPlan,
    left: Seq<ManagedSession>,
)
    requires
        counts.of(sessions),
        is_round(
            before,
            sessions,
            counts,
            oldest,
            newest_idle,
            session_id,
            now,
            after,
            plan,
            left,
        ),
        plan.force_turnover,
    ensures
        count(sessions, Kind::Active) >= before.policy.max_sessions,
        count(sessions, Kind::ActiveLeaving) == count(sessions, Kind::Active),
        plan.spawn is None,
        !some_put_out(sessions),
{
}

/// However often sessions fail, the delay before the next start stays within its bound, and
/// the first session that reaches health brings it back to its start.
pub proof fn backoff_is_capped(
    manager: SessionManager,
    id: u64,
    reached_healthy: bool,
    owner_lost: bool,
    now: u128,
)
    ensures
        ({
            let after = after_session_exit(manager, id, reached_healthy, owner_lost, now);
            &&& !reached_healthy ==> after.backoff <= manager.policy.max_backoff
            &&& reached_healthy ==> after.backoff == manager.policy.initial_backoff
        }),
{
}

/// A machine that came back from sleep is given its time: no event of a session or a
/// connection moves the deadline.
pub proof fn settle_deadline_survives_events(
    manager: SessionManager,
    id: u64,
    reached_healthy: bool,
    owner_lost: bool,
    refreshed: Option<ConnectivitySnapshot>,
    running: bool,
    now: u128,
)
    ensures
        after_session_exit(manager, id, reached_healthy, owner_lost, now).resume_settle_until
            == manager.resume_settle_until,
        after_demand(manager, refreshed, running, now).resume_settle_until
            == manager.resume_settle_until,
{
}

} // verus!
