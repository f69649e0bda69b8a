//! The watch over one SSH session: when it is probed, what a probe means for it, and when
//! probes end it. Times and durations are nanoseconds.
use crate::config::ProbeConfig;
use crate::ssh_policy::probe_failure_requires_disconnect;
use crate::ssh_pool::{alive, find_session, lemma_session_index, probe_failure_noted, with_session,
    ManagedSession, SessionPool};
use crate::text::{concat2, concat3, decimal, decimal_text, text_option};
use vstd::prelude::*;

verus! {

/// The watch over one session.
#[derive(Debug, Clone, Copy, PartialEq, Eq, Structural)]
pub struct SessionMonitor {
    pub probe: ProbeConfig,
    /// The failed probes since the last sign of life.
    pub consecutive_failures: u32,
    /// The signs of life since the last failed probe.
    pub consecutive_successes: u32,
    /// How far the data of the session had come when it was last looked at.
    pub observed_payload_generation: u64,
    /// Whether changes of the network are still reported.
    pub connectivity_events_open: bool,
}

/// What the watch waits for, besides the end of the session.
#[derive(Debug, Clone, Copy, PartialEq, Eq, Structural)]
pub struct MonitorWait {
    /// Whether for a change of the network.
    pub connectivity: bool,
    /// How long until the next probe, where one is to come.
    pub probe_after: Option<u128>,
}

/// What came of a probe.
#[derive(Debug)]
pub enum PingOutcome {
    /// An answer, after so many milliseconds.
    Answered(u64),
    /// An error.
    Failed(String),
    /// No answer in time.
    TimedOut,
}

/// One more, as far as there are numbers.
pub open spec fn one_more(count: u32) -> u32 {
    if count < u32::MAX {
        (count + 1) as u32
    } else {
        count
    }
}

/// A text for a failed probe; none for an answer.
pub open spec fn ping_error(outcome: PingOutcome, probe: ProbeConfig) -> Option<Seq<char>> {
    match outcome {
        PingOutcome::Answered(_) => None,
        PingOutcome::Failed(error) => Some("SSH ping failed: "@ + error@),
        PingOutcome::TimedOut => Some(
            "SSH ping timed out after "@ + decimal(ping_timeout_millis(probe) as nat) + " ms"@,
        ),
    }
}

/// How many milliseconds a probe may take: at least one.
#[verifier::allow_in_spec]
pub fn ping_timeout_millis(probe: ProbeConfig) -> u64
    returns
        (if probe.timeout_millis >= 1 {
            probe.timeout_millis
        } else {
            1
        }),
{
    if probe.timeout_millis >= 1 {
        probe.timeout_millis
    } else {
        1
    }
}

/// The number of failed probes after which a session is to be replaced: one before they end
/// it, at least one.
#[verifier::allow_in_spec]
pub fn replacement_threshold(probe: ProbeConfig) -> u32
    returns
        (if probe.fail_threshold >= 2 {
            (probe.fail_threshold - 1) as u32
        } else {
            1
        }),
{
    if probe.fail_threshold >= 2 {
        probe.fail_threshold - 1
    } else {
        1
    }
}

/// Why a session ended, as the other side said it.
pub fn disconnect_text(reason: Option<String>) -> (r: String)
    ensures
        r@ == (match reason {
            Some(text) => text@,
            None => "SSH session disconnected"@,
        }),
{
    match reason {
        Some(text) => text,
        None => "SSH session disconnected".to_owned(),
    }
}

/// Data went through an open channel of the session since it was last looked at.
pub open spec fn carried_data(monitor: SessionMonitor, session: Option<ManagedSession>) -> bool {
    session matches Some(s) && s.in_flight > 0 && s.payload_generation
        != monitor.observed_payload_generation
}

/// The watch after a sign of life.
pub open spec fn after_success(monitor: SessionMonitor) -> SessionMonitor {
    SessionMonitor {
        consecutive_failures: 0,
        consecutive_successes: one_more(monitor.consecutive_successes),
        ..monitor
    }
}

/// The watch after a failed probe.
pub open spec fn after_failure(monitor: SessionMonitor) -> SessionMonitor {
    SessionMonitor {
        consecutive_failures: one_more(monitor.consecutive_failures),
        consecutive_successes: 0,
        ..monitor
    }
}

/// The watch while the machine is offline: what was counted is forgotten.
pub open spec fn forgiven(monitor: SessionMonitor) -> SessionMonitor {
    SessionMonitor { consecutive_failures: 0, consecutive_successes: 0, ..monitor }
}

/// The watch after a look at how far the data of the session has come.
pub open spec fn after_look(
    monitor: SessionMonitor,
    session: Option<ManagedSession>,
) -> SessionMonitor {
    match session {
        Some(s) => SessionMonitor {
            observed_payload_generation: s.payload_generation,
            ..monitor
        },
        None => monitor,
    }
}

/// Enough signs of life for a suspect session to be healthy.
pub open spec fn has_recovered(monitor: SessionMonitor) -> bool {
    monitor.consecutive_successes >= monitor.probe.recovery_threshold
}

/// Whether a failed probe, counted by `monitor`, ends the session.
pub open spec fn ends_session(monitor: SessionMonitor, session: Option<ManagedSession>) -> bool {
    probe_failure_requires_disconnect(
        monitor.consecutive_failures,
        monitor.probe.fail_threshold,
        match session {
            Some(s) => s.in_flight,
            None => 0,
        },
    )
}

impl SessionMonitor {
    /// The watch over a session whose data has come as far as `payload_generation`.
    pub fn start(probe: ProbeConfig, payload_generation: u64) -> SessionMonitor
        returns
            (SessionMonitor {
                probe,
                consecutive_failures: 0,
                consecutive_successes: 0,
                observed_payload_generation: payload_generation,
                connectivity_events_open: true,
            }),
    {
        SessionMonitor {
            probe,
            consecutive_failures: 0,
            consecutive_successes: 0,
            observed_payload_generation: payload_generation,
            connectivity_events_open: true,
        }
    }

    /// What to wait for next. Without probes that is the end of the session alone; while the
    /// machine is offline no probe is due.
    pub fn wait(&mut self, offline: bool) -> (r: MonitorWait)
        ensures
            *final(self) == if old(self).probe.enabled && offline {
                forgiven(*old(self))
            } else {
                *old(self)
            },
            r == (MonitorWait {
                connectivity: old(self).probe.enabled && old(self).connectivity_events_open,
                probe_after: if old(self).probe.enabled && !offline {
                    Some(
                        (if old(self).probe.interval_secs >= 1 {
                            old(self).probe.interval_secs as int
                        } else {
                            1
                        } * 1_000_000_000) as u128,
                    )
                } else {
                    None
                },
            }),
    {
        if !self.probe.enabled {
            return MonitorWait { connectivity: false, probe_after: None };
        }
        if offline {
            self.consecutive_failures = 0;
            self.consecutive_successes = 0;
            return MonitorWait {
                connectivity: self.connectivity_events_open,
                probe_after: None,
            };
        }
        let seconds: u64 = if self.probe.interval_secs >= 1 {
            self.probe.interval_secs
        } else {
            1
        };
        MonitorWait {
            connectivity: self.connectivity_events_open,
            probe_after: Some(seconds as u128 * 1_000_000_000),
        }
    }

    /// Takes in that changes of the network are no longer reported.
    pub fn on_connectivity_closed(&mut self)
        ensures
            *final(self) == (SessionMonitor { connectivity_events_open: false, ..*old(self) }),
    {
        self.connectivity_events_open = false;
    }

    /// The time for a probe has come; tells whether one is to be sent. Data that went through
    /// an open channel since the last look is sign of life enough.
    pub fn on_probe_due(&mut self, pool: &mut SessionPool, id: u64) -> (send: bool)
        ensures
            ({
                let session = find_session(old(pool).sessions@, id);
                let looked = after_look(*old(self), session);
                &&& send == !carried_data(*old(self), session)
                &&& final(pool).remote_owner == old(pool).remote_owner
                &&& if send {
                    *final(self) == looked && final(pool).sessions@ == old(pool).sessions@
                } else {
                    &&& *final(self) == after_success(looked)
                    &&& final(pool).sessions@ == with_session(
                        old(pool).sessions@,
                        id,
                        |s: ManagedSession| alive(s, has_recovered(*final(self)), None),
                    )
                }
            }),
    {
        proof {
            lemma_session_index(pool.sessions@, id);
        }
        match pool.position(id) {
            Some(i) => {
                let generation: u64 = pool.sessions[i].payload_generation;
                let quiet = pool.sessions[i].in_flight == 0 || generation
                    == self.observed_payload_generation;
                self.observed_payload_generation = generation;
                if quiet {
                    return true;
                }
                self.count_success();
                pool.mark_session_alive(
                    id,
                    self.consecutive_successes >= self.probe.recovery_threshold,
                    None,
                );
                false
            },
            None => true,
        }
    }

    fn count_success(&mut self)
        ensures
            *final(self) == after_success(*old(self)),
    {
        self.consecutive_failures = 0;
        self.consecutive_successes = self.consecutive_successes.saturating_add(1);
    }

    /// Takes in what came of a probe; gives the error with which the session is to be
    /// disconnected, where it is. While the machine is offline a probe says nothing.
    pub fn on_ping(
        &mut self,
        pool: &mut SessionPool,
        id: u64,
        offline: bool,
        outcome: &PingOutcome,
        now: u128,
    ) -> (r: Option<String>)
        ensures
            final(pool).remote_owner == old(pool).remote_owner,
            ({
                let error = ping_error(*outcome, old(self).probe);
                if offline {
                    &&& *final(self) == forgiven(*old(self))
                    &&& final(pool).sessions@ == old(pool).sessions@
                    &&& r is None
                } else if error is None {
                    &&& *final(self) == after_success(*old(self))
                    &&& final(pool).sessions@ == with_session(
                        old(pool).sessions@,
                        id,
                        |s: ManagedSession|
                            alive(s, has_recovered(*final(self)), Some(outcome->Answered_0)),
                    )
                    &&& r is None
                } else {
                    &&& *final(self) == after_failure(*old(self))
                    &&& probe_failure_noted(
                        old(pool).sessions@,
                        final(pool).sessions@,
                        id,
                        error->0,
                        final(self).consecutive_failures >= replacement_threshold(
                            old(self).probe,
                        ),
                        now,
                    )
                    &&& text_option(r) == if ends_session(
                        *final(self),
                        find_session(old(pool).sessions@, id),
                    ) {
                        error
                    } else {
                        None
                    }
                }
            }),
    {
        if offline {
            self.consecutive_failures = 0;
            self.consecutive_successes = 0;
            return None;
        }
        let error = match outcome {
            PingOutcome::Answered(sample) => {
                self.count_success();
                pool.mark_session_alive(
                    id,
                    self.consecutive_successes >= self.probe.recovery_threshold,
                    Some(*sample),
                );
                return None;
            },
            PingOutcome::Failed(error) => concat2("SSH ping failed: ", error.as_str()),
            PingOutcome::TimedOut => concat3(
                "SSH ping timed out after ",
                decimal_text(ping_timeout_millis(self.probe)).as_str(),
                " ms",
            ),
        };
        self.consecutive_successes = 0;
        self.consecutive_failures = self.consecutive_failures.saturating_add(1);
        let in_flight: usize = match pool.position(id) {
            Some(i) => pool.sessions[i].in_flight,
            None => 0,
        };
        pool.mark_session_probe_failure(
            id,
            error.as_str(),
            self.consecutive_failures >= replacement_threshold(self.probe),
            now,
        );
        if probe_failure_requires_disconnect(
            self.consecutive_failures,
            self.probe.fail_threshold,
            in_flight,
        ) {
            Some(error)
        } else {
            None
        }
    }
}

/// Failed probes never end a session with an open channel.
pub proof fn open_channels_outlive_failed_probes(monitor: SessionMonitor, session: ManagedSession)
    requires
        session.in_flight > 0,
    ensures
        !ends_session(monitor, Some(session)),
{
}

/// A failed probe that ends a session also asks for its replacement, whatever the thresholds.
pub proof fn ended_sessions_are_replaced(
    monitor: SessionMonitor,
    session: Option<ManagedSession>,
)
    requires
        ends_session(after_failure(monitor), session),
    ensures
        after_failure(monitor).consecutive_failures >= replacement_threshold(monitor.probe),
{
}

/// One sign of life forgives every failed probe before it: the next failed one counts as the
/// first.
pub proof fn life_forgives_failures(monitor: SessionMonitor)
    ensures
        after_failure(after_success(monitor)).consecutive_failures == 1,
        after_failure(forgiven(monitor)).consecutive_failures == 1,
{
}

/// A monitor counts in a row: every failed probe is one more, a sign of life starts the count of
/// failures anew, and a failed probe that of signs of life.
pub proof fn probes_are_counted_in_a_row(monitor: SessionMonitor)
    requires
        monitor.consecutive_failures < u32::MAX,
        monitor.consecutive_successes < u32::MAX,
    ensures
        after_failure(monitor).consecutive_failures == monitor.consecutive_failures + 1,
        after_failure(monitor).consecutive_successes == 0,
        after_success(monitor).consecutive_successes == monitor.consecutive_successes + 1,
        after_success(monitor).consecutive_failures == 0,
        after_success(monitor).probe == monitor.probe,
        after_failure(monitor).probe == monitor.probe,
{
}

/// A session has recovered just after as many signs of life in a row as are asked for. It is to
/// be replaced one failure before it is ended, and it is ended after as many failures in a row
/// as are asked for, where no channel is open.
pub proof fn thresholds_are_kept(monitor: SessionMonitor, session: ManagedSession)
    ensures
        has_recovered(monitor) <==> monitor.consecutive_successes
            >= monitor.probe.recovery_threshold,
        monitor.probe.fail_threshold >= 2 ==> replacement_threshold(monitor.probe) + 1
            == monitor.probe.fail_threshold,
        monitor.probe.fail_threshold < 2 ==> replacement_threshold(monitor.probe) == 1,
        session.in_flight == 0 ==> (ends_session(monitor, Some(session))
            <==> monitor.consecutive_failures >= monitor.probe.fail_threshold),
        ends_session(monitor, None) <==> monitor.consecutive_failures
            >= monitor.probe.fail_threshold,
        ping_timeout_millis(monitor.probe) >= 1,
        monitor.probe.timeout_millis >= 1 ==> ping_timeout_millis(monitor.probe)
            == monitor.probe.timeout_millis,
{
}

/// Data is a sign of life only where it went through an open channel since the last look; the
/// next look sees none of it again.
pub proof fn data_is_seen_once(monitor: SessionMonitor, session: ManagedSession)
    ensures
        carried_data(monitor, Some(session)) <==> session.in_flight > 0
            && session.payload_generation != monitor.observed_payload_generation,
        !carried_data(monitor, None),
        !carried_data(after_look(monitor, Some(session)), Some(session)),
{
}

/// A session is probed once in every interval, which is a second at least; neither while the
/// machine is offline nor where probes are switched off.
pub proof fn probes_come_at_their_interval(offline: bool)
    ensures
        forall|monitor: &mut SessionMonitor, wait: MonitorWait| #[trigger]
            call_ensures(SessionMonitor::wait, (monitor, offline), wait) ==> {
                let seconds = monitor.probe.interval_secs;
                &&& wait.probe_after is Some <==> monitor.probe.enabled && !offline
                &&& wait.probe_after is Some && seconds >= 1 ==> wait.probe_after->0 == seconds
                    * 1_000_000_000
                &&& wait.probe_after is Some && seconds == 0 ==> wait.probe_after->0
                    == 1_000_000_000
                &&& wait.connectivity <==> monitor.probe.enabled
                    && monitor.connectivity_events_open
                &&& final(monitor).probe == monitor.probe
            },
{
}

} // verus!
