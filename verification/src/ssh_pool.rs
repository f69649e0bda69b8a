//! The SSH sessions of one host: which of them take channels, which leave the pool and how.
//! Times and durations are nanoseconds.
use crate::arith::{saturating_product, smaller};
use crate::health::HealthStatus;
use crate::order;
use crate::order::{is_first_minimum, is_last_maximum, is_stable_order};
use crate::ssh_policy::{ewma_rtt, smoothed_rtt};
use crate::text::{copy_text_option, text_option};
use vstd::prelude::*;

verus! {

/// What a session is doing.
#[derive(Debug, Clone, Copy, PartialEq, Eq, Structural)]
pub enum SshSessionStatus {
    Connecting,
    Healthy,
    Suspect,
    Draining,
    Offline,
}

/// What is known of a session.
#[derive(Debug)]
pub struct SshSessionState {
    pub status: SshSessionStatus,
    pub rtt_millis: Option<u64>,
    pub last_error: Option<String>,
    pub retirement_started: Option<u128>,
    pub drain_started: Option<u128>,
    pub drain_idle_since: Option<u128>,
    pub drain_payload_generation: u64,
    pub forced_turnover_requested: bool,
}

/// A session of the pool.
#[derive(Debug)]
pub struct ManagedSession {
    pub id: u64,
    pub state: SshSessionState,
    /// The open channels.
    pub in_flight: usize,
    /// Moves on whenever a channel carries data.
    pub payload_generation: u64,
    /// Whether the session is to leave the pool.
    pub retire_requested: bool,
    /// Whether there is a connection to speak through.
    pub connected: bool,
}

/// The sessions of one host, and which of them holds the remote forwards.
#[derive(Debug)]
pub struct SessionPool {
    pub sessions: Vec<ManagedSession>,
    pub remote_owner: Option<u64>,
}

impl SshSessionState {
    /// The state of a session that has just started.
    pub fn connecting() -> (r: SshSessionState)
        ensures
            r == (SshSessionState {
                status: SshSessionStatus::Connecting,
                rtt_millis: None,
                last_error: None,
                retirement_started: None,
                drain_started: None,
                drain_idle_since: None,
                drain_payload_generation: 0,
                forced_turnover_requested: false,
            }),
    {
        SshSessionState {
            status: SshSessionStatus::Connecting,
            rtt_millis: None,
            last_error: None,
            retirement_started: None,
            drain_started: None,
            drain_idle_since: None,
            drain_payload_generation: 0,
            forced_turnover_requested: false,
        }
    }
}

impl ManagedSession {
    /// A session that has just started.
    pub fn new(id: u64) -> (r: ManagedSession)
        ensures
            r.id == id,
            r.state.status == SshSessionStatus::Connecting,
            r.state.rtt_millis is None,
            r.state.last_error is None,
            r.state.retirement_started is None,
            r.state.drain_started is None,
            r.state.drain_idle_since is None,
            r.state.drain_payload_generation == 0,
            !r.state.forced_turnover_requested,
            r.in_flight == 0,
            r.payload_generation == 0,
            !r.retire_requested,
            !r.connected,
    {
        ManagedSession {
            id,
            state: SshSessionState::connecting(),
            in_flight: 0,
            payload_generation: 0,
            retire_requested: false,
            connected: false,
        }
    }

    /// Whether another channel fits.
    pub fn has_capacity(&self, maximum: usize) -> (r: bool)
        ensures
            r == (self.in_flight < maximum),
    {
        self.in_flight < maximum
    }

    /// Healthy, and not about to leave.
    pub open spec fn serves(self) -> bool {
        self.state.status == SshSessionStatus::Healthy && !self.retire_requested
    }

    /// Whether the session is healthy and not about to leave.
    pub fn is_serving(&self) -> (r: bool)
        ensures
            r == self.serves(),
    {
        self.state.status == SshSessionStatus::Healthy && !self.retire_requested
    }
}

// ---------------------------------------------------------------------------
// Finding and changing one session
// ---------------------------------------------------------------------------
/// Where the session `id` first stands; the number of sessions where it does not.
pub open spec fn session_index(sessions: Seq<ManagedSession>, id: u64) -> int
    decreases sessions.len(),
{
    if sessions.len() == 0 || sessions[0].id == id {
        0
    } else {
        1 + session_index(sessions.drop_first(), id)
    }
}

pub proof fn lemma_session_index(sessions: Seq<ManagedSession>, id: u64)
    ensures
        0 <= session_index(sessions, id) <= sessions.len(),
        forall|i: int| 0 <= i < session_index(sessions, id) ==> sessions[i].id != id,
        session_index(sessions, id) < sessions.len() ==> sessions[session_index(sessions, id)].id
            == id,
    decreases sessions.len(),
{
    if sessions.len() > 0 && sessions[0].id != id {
        lemma_session_index(sessions.drop_first(), id);
        assert forall|i: int| 0 <= i < session_index(sessions, id) implies sessions[i].id
            != id by {
            if i > 0 {
                assert(sessions.drop_first()[i - 1] == sessions[i]);
            }
        }
    }
}

/// The session `id`, where the pool has it.
pub open spec fn find_session(sessions: Seq<ManagedSession>, id: u64) -> Option<ManagedSession> {
    let i = session_index(sessions, id);
    if i < sessions.len() {
        Some(sessions[i])
    } else {
        None
    }
}

/// The sessions with `change` made to the session `id`, where the pool has it.
pub open spec fn with_session(
    sessions: Seq<ManagedSession>,
    id: u64,
    change: spec_fn(ManagedSession) -> ManagedSession,
) -> Seq<ManagedSession> {
    let i = session_index(sessions, id);
    if i < sessions.len() {
        sessions.update(i, change(sessions[i]))
    } else {
        sessions
    }
}

/// `session` after the wish that it leave the pool: the time of the first wish counts.
pub open spec fn retired(session: ManagedSession, now: u128) -> ManagedSession {
    if session.retire_requested {
        session
    } else {
        ManagedSession {
            retire_requested: true,
            state: SshSessionState { retirement_started: Some(now), ..session.state },
            ..session
        }
    }
}

impl SessionPool {
    /// A pool without sessions.
    pub fn new() -> (r: SessionPool)
        ensures
            r.sessions@.len() == 0,
            r.remote_owner is None,
    {
        SessionPool { sessions: Vec::new(), remote_owner: None }
    }

    /// Where the session `id` stands.
    pub fn position(&self, id: u64) -> (r: Option<usize>)
        ensures
            (match r {
                Some(i) => i == session_index(self.sessions@, id) && i < self.sessions@.len(),
                None => session_index(self.sessions@, id) == self.sessions@.len(),
            }),
    {
        for i in 0..self.sessions.len()
            invariant
                forall|j: int| 0 <= j < i ==> (#[trigger] self.sessions@[j]).id != id,
        {
            if self.sessions[i].id == id {
                proof {
                    lemma_session_index(self.sessions@, id);
                }
                return Some(i);
            }
        }
        proof {
            lemma_session_index(self.sessions@, id);
        }
        None
    }

    /// Takes in a session that has just started.
    pub fn add_session(&mut self, id: u64)
        ensures
            final(self).remote_owner == old(self).remote_owner,
            final(self).sessions@.len() == old(self).sessions@.len() + 1,
            final(self).sessions@.drop_last() == old(self).sessions@,
            final(self).sessions@.last() == (ManagedSession {
                id,
                state: SshSessionState {
                    status: SshSessionStatus::Connecting,
                    rtt_millis: None,
                    last_error: None,
                    retirement_started: None,
                    drain_started: None,
                    drain_idle_since: None,
                    drain_payload_generation: 0,
                    forced_turnover_requested: false,
                },
                in_flight: 0,
                payload_generation: 0,
                retire_requested: false,
                connected: false,
            }),
    {
        self.sessions.push(ManagedSession::new(id));
        assert(self.sessions@.drop_last() =~= old(self).sessions@);
    }

    /// Asks that a session leave the pool.
    pub fn request_session_retirement(&mut self, id: u64, now: u128)
        ensures
            final(self).remote_owner == old(self).remote_owner,
            final(self).sessions@ == with_session(
                old(self).sessions@,
                id,
                |s: ManagedSession| retired(s, now),
            ),
    {
        match self.position(id) {
            Some(i) => {
                if !self.sessions[i].retire_requested {
                    self.sessions[i].retire_requested = true;
                    self.sessions[i].state.retirement_started = Some(now);
                }
                assert(self.sessions@ =~= with_session(
                    old(self).sessions@,
                    id,
                    |s: ManagedSession| retired(s, now),
                ));
            },
            None => {},
        }
    }
}

// ---------------------------------------------------------------------------
// Channels
// ---------------------------------------------------------------------------
/// Whether a session takes a new channel.
pub open spec fn takes_channels(session: ManagedSession, maximum: usize) -> bool {
    session.serves() && session.in_flight < maximum
}

/// A part of the sessions.
pub ghost enum Group {
    /// Those that take a new channel while they have fewer than so many.
    Open(usize),
    /// Those that could take over the remote forwards from the given holder.
    Standby(Option<u64>),
    /// Those that are to leave the pool and are not being put out.
    Leaving,
    /// Those of them that do not hold the remote forwards, which the given one holds.
    LeavingBut(Option<u64>),
}

impl Group {
    /// Whether `session` belongs to the group.
    pub open spec fn has(self, session: ManagedSession) -> bool {
        match self {
            Group::Open(maximum) => takes_channels(session, maximum),
            Group::Standby(owner) => session.serves() && owner != Some(session.id),
            Group::Leaving => is_leaving(session),
            Group::LeavingBut(owner) => is_leaving(session) && owner != Some(session.id),
        }
    }
}

/// To leave the pool, still there, and not being put out.
pub open spec fn is_leaving(session: ManagedSession) -> bool {
    session.retire_requested && session.state.status != SshSessionStatus::Offline
        && !session.state.forced_turnover_requested
}

/// The positions of the sessions of a group, in order.
pub open spec fn positions(sessions: Seq<ManagedSession>, group: Group) -> Seq<usize>
    decreases sessions.len(),
{
    if sessions.len() == 0 {
        Seq::empty()
    } else {
        let before = positions(sessions.drop_last(), group);
        if group.has(sessions.last()) {
            before.push((sessions.len() - 1) as usize)
        } else {
            before
        }
    }
}

/// Round-trip time, a quarter of the largest number where none is known, times one more than
/// the open channels.
pub open spec fn channel_score(session: ManagedSession) -> u64 {
    let rtt = match session.state.rtt_millis {
        Some(rtt) => rtt,
        None => u64::MAX / 4,
    };
    smaller(rtt * (session.in_flight + 1), u64::MAX as int) as u64
}

/// The scores of the sessions at `positions`.
pub open spec fn channel_scores(
    sessions: Seq<ManagedSession>,
    positions: Seq<usize>,
) -> Seq<u64> {
    positions.map_values(|p: usize| channel_score(sessions[p as int]))
}

/// The ids of the sessions that `order` picks from `positions`.
pub open spec fn ordered_ids(
    sessions: Seq<ManagedSession>,
    positions: Seq<usize>,
    order: Seq<usize>,
) -> Seq<u64> {
    order.map_values(|k: usize| sessions[positions[k as int] as int].id)
}

pub proof fn lemma_positions(sessions: Seq<ManagedSession>, group: Group)
    requires
        sessions.len() <= usize::MAX,
    ensures
        forall|k: int|
            0 <= k < positions(sessions, group).len() ==> {
                &&& 0 <= #[trigger] positions(sessions, group)[k] < sessions.len()
                &&& group.has(sessions[positions(sessions, group)[k] as int])
            },
        forall|i: int|
            0 <= i < sessions.len() && group.has(#[trigger] sessions[i]) ==> positions(
                sessions,
                group,
            ).contains(i as usize),
    decreases sessions.len(),
{
    if sessions.len() > 0 {
        let front = sessions.drop_last();
        lemma_positions(front, group);
        let before = positions(front, group);
        let after = positions(sessions, group);
        assert forall|k: int| 0 <= k < after.len() implies {
            &&& 0 <= #[trigger] after[k] < sessions.len()
            &&& group.has(sessions[after[k] as int])
        } by {
            if k < before.len() {
                assert(after[k] == before[k]);
                assert(front[before[k] as int] == sessions[before[k] as int]);
            }
        }
        assert forall|i: int| 0 <= i < sessions.len() && group.has(#[trigger] sessions[i]) implies
            after.contains(i as usize) by {
            if i < sessions.len() - 1 {
                assert(front[i] == sessions[i]);
                let k = choose|k: int| 0 <= k < before.len() && before[k] == i as usize;
                assert(after[k] == i as usize);
            } else {
                assert(after[after.len() - 1] == i as usize);
            }
        }
    }
}

/// The sum of the open channels.
pub open spec fn total_in_flight(sessions: Seq<ManagedSession>) -> int
    decreases sessions.len(),
{
    if sessions.len() == 0 {
        0
    } else {
        total_in_flight(sessions.drop_last()) + sessions.last().in_flight
    }
}

proof fn lemma_total_grows(sessions: Seq<ManagedSession>, n: int)
    requires
        0 <= n <= sessions.len(),
    ensures
        0 <= total_in_flight(sessions.take(n)) <= total_in_flight(sessions),
    decreases sessions.len(),
{
    if n < sessions.len() {
        lemma_total_grows(sessions.drop_last(), n);
        assert(sessions.drop_last().take(n) == sessions.take(n));
    } else {
        assert(sessions.take(n) == sessions);
        if n > 0 {
            lemma_total_grows(sessions.drop_last(), n - 1);
            assert(sessions.drop_last().take(n - 1) == sessions.drop_last());
        }
    }
}

/// `ids` are the sessions that take a channel, by score, and in the order of the pool where
/// scores are equal.
pub open spec fn is_channel_order(
    sessions: Seq<ManagedSession>,
    maximum: usize,
    ids: Seq<u64>,
) -> bool {
    let open = positions(sessions, Group::Open(maximum));
    exists|order: Seq<usize>| #[trigger]
        is_stable_order(channel_scores(sessions, open), order) && ids == ordered_ids(
            sessions,
            open,
            order,
        )
}

/// `after` is `before` with an error of the session `id` noted.
pub open spec fn error_noted(
    before: Seq<ManagedSession>,
    after: Seq<ManagedSession>,
    id: u64,
    error: Seq<char>,
) -> bool {
    let i = session_index(before, id);
    &&& after.len() == before.len()
    &&& forall|j: int| 0 <= j < before.len() && j != i ==> after[j] == before[j]
    &&& i < before.len() ==> {
        &&& text_option(after[i].state.last_error) == Some(error)
        &&& after[i] == ManagedSession {
            state: SshSessionState {
                last_error: after[i].state.last_error,
                ..before[i].state
            },
            ..before[i]
        }
    }
}

/// `session` with one more channel open.
pub open spec fn with_channel(session: ManagedSession) -> ManagedSession {
    ManagedSession { in_flight: (session.in_flight + 1) as usize, ..session }
}

/// `session` with one channel less open.
pub open spec fn without_channel(session: ManagedSession) -> ManagedSession {
    ManagedSession { in_flight: (session.in_flight - 1) as usize, ..session }
}

/// `session` after a channel was opened in `sample` milliseconds.
pub open spec fn with_opened_channel(session: ManagedSession, sample: u64) -> ManagedSession {
    ManagedSession {
        state: SshSessionState {
            rtt_millis: Some(smoothed_rtt(session.state.rtt_millis, sample)),
            last_error: None,
            ..session.state
        },
        ..session
    }
}

impl SessionPool {
    /// Whether some session takes a new channel.
    pub fn has_available_session(&self, maximum: usize) -> (r: bool)
        ensures
            r == (exists|i: int|
                0 <= i < self.sessions@.len() && takes_channels(
                    #[trigger] self.sessions@[i],
                    maximum,
                )),
    {
        for i in 0..self.sessions.len()
            invariant
                forall|j: int|
                    0 <= j < i ==> !takes_channels(#[trigger] self.sessions@[j], maximum),
        {
            let session = &self.sessions[i];
            if session.has_capacity(maximum) && session.is_serving() {
                assert(takes_channels(self.sessions@[i as int], maximum));
                return true;
            }
        }
        false
    }

    /// The sum of the open channels.
    pub fn in_flight(&self) -> (r: usize)
        requires
            total_in_flight(self.sessions@) <= usize::MAX,
        ensures
            r == total_in_flight(self.sessions@),
    {
        let mut sum: usize = 0;
        for i in 0..self.sessions.len()
            invariant
                total_in_flight(self.sessions@) <= usize::MAX,
                sum == total_in_flight(self.sessions@.take(i as int)),
        {
            let ghost next = self.sessions@.take(i + 1);
            assert(next.drop_last() == self.sessions@.take(i as int));
            proof {
                lemma_total_grows(self.sessions@, i + 1);
            }
            sum = sum + self.sessions[i].in_flight;
        }
        assert(self.sessions@.take(self.sessions@.len() as int) == self.sessions@);
        sum
    }

    /// The sessions to try for a new channel, the best first: those that take one, by score,
    /// and in the order of the pool where scores are equal.
    pub fn channel_candidates(&self, maximum: usize) -> (r: Vec<u64>)
        ensures
            is_channel_order(self.sessions@, maximum, r@),
    {
        let mut open: Vec<usize> = Vec::new();
        let mut scores: Vec<u64> = Vec::new();
        for i in 0..self.sessions.len()
            invariant
                open@ == positions(self.sessions@.take(i as int), Group::Open(maximum)),
                scores@ == channel_scores(self.sessions@, open@),
        {
            let session = &self.sessions[i];
            assert(self.sessions@.take(i + 1).drop_last() == self.sessions@.take(i as int));
            if session.has_capacity(maximum) && session.is_serving() {
                let rtt: u64 = session.state.rtt_millis.unwrap_or(u64::MAX / 4);
                scores.push(saturating_product(rtt, (session.in_flight + 1) as u64));
                open.push(i);
                assert(scores@ =~= channel_scores(self.sessions@, open@));
            }
        }
        assert(self.sessions@.take(self.sessions@.len() as int) == self.sessions@);
        proof {
            lemma_positions(self.sessions@, Group::Open(maximum));
        }
        let order = order::stable_order(&scores);
        let mut ids: Vec<u64> = Vec::new();
        for k in 0..order.len()
            invariant
                open@ == positions(self.sessions@, Group::Open(maximum)),
                forall|k: int|
                    0 <= k < open@.len() ==> 0 <= #[trigger] open@[k]
                        < self.sessions@.len(),
                order@.len() == open@.len(),
                forall|k: int| 0 <= k < order@.len() ==> 0 <= #[trigger] order@[k] < open@.len(),
                ids@ == ordered_ids(self.sessions@, open@, order@.take(k as int)),
        {
            ids.push(self.sessions[open[order[k]]].id);
            assert(order@.take(k + 1) == order@.take(k as int).push(order@[k as int]));
            assert(ids@ =~= ordered_ids(self.sessions@, open@, order@.take(k + 1)));
        }
        assert(order@.take(order@.len() as int) == order@);
        ids
    }

    /// Takes a channel of a session, where one is left.
    pub fn reserve_in_flight(&mut self, id: u64, maximum: usize) -> (reserved: bool)
        ensures
            reserved == (find_session(old(self).sessions@, id) matches Some(s) && s.in_flight
                < maximum),
            final(self).remote_owner == old(self).remote_owner,
            final(self).sessions@ == if reserved {
                with_session(
                    old(self).sessions@,
                    id,
                    |s: ManagedSession| with_channel(s),
                )
            } else {
                old(self).sessions@
            },
    {
        match self.position(id) {
            Some(i) => {
                if self.sessions[i].in_flight >= maximum {
                    return false;
                }
                self.sessions[i].in_flight = self.sessions[i].in_flight + 1;
                assert(self.sessions@ =~= with_session(
                    old(self).sessions@,
                    id,
                    |s: ManagedSession| with_channel(s),
                ));
                true
            },
            None => false,
        }
    }

    /// Gives a channel of a session back.
    pub fn release_in_flight(&mut self, id: u64)
        requires
            find_session(old(self).sessions@, id) matches Some(s) ==> s.in_flight > 0,
        ensures
            final(self).remote_owner == old(self).remote_owner,
            final(self).sessions@ == with_session(
                old(self).sessions@,
                id,
                |s: ManagedSession| without_channel(s),
            ),
    {
        match self.position(id) {
            Some(i) => {
                self.sessions[i].in_flight = self.sessions[i].in_flight - 1;
                assert(self.sessions@ =~= with_session(
                    old(self).sessions@,
                    id,
                    |s: ManagedSession| without_channel(s),
                ));
            },
            None => {},
        }
    }

    /// Takes in that a channel was opened and how many milliseconds that took.
    pub fn channel_opened(&mut self, id: u64, sample: u64)
        ensures
            final(self).remote_owner == old(self).remote_owner,
            final(self).sessions@ == with_session(
                old(self).sessions@,
                id,
                |s: ManagedSession| with_opened_channel(s, sample),
            ),
    {
        match self.position(id) {
            Some(i) => {
                let rtt: u64 = ewma_rtt(self.sessions[i].state.rtt_millis, sample);
                self.sessions[i].state.rtt_millis = Some(rtt);
                self.sessions[i].state.last_error = None;
                assert(self.sessions@ =~= with_session(
                    old(self).sessions@,
                    id,
                    |s: ManagedSession| with_opened_channel(s, sample),
                ));
            },
            None => {},
        }
    }

    /// Notes an error of a session.
    pub fn note_error(&mut self, id: u64, error: &str)
        ensures
            final(self).remote_owner == old(self).remote_owner,
            error_noted(old(self).sessions@, final(self).sessions@, id, error@),
    {
        match self.position(id) {
            Some(i) => {
                self.sessions[i].state.last_error = Some(error.to_owned());
            },
            None => {},
        }
    }
}

/// Giving back a channel that was taken leaves the pool as it was.
pub proof fn release_undoes_reserve(sessions: Seq<ManagedSession>, id: u64, maximum: usize)
    requires
        find_session(sessions, id) matches Some(s) && s.in_flight < maximum,
    ensures
        ({
            let taken = with_session(
                sessions,
                id,
                |s: ManagedSession| with_channel(s),
            );
            &&& find_session(taken, id) matches Some(s) && s.in_flight > 0
            &&& with_session(
                taken,
                id,
                |s: ManagedSession| without_channel(s),
            ) == sessions
        }),
{
    let up = |s: ManagedSession| with_channel(s);
    let down = |s: ManagedSession| without_channel(s);
    let taken = with_session(sessions, id, up);
    let i = session_index(sessions, id);
    lemma_session_index(sessions, id);
    lemma_session_index(taken, id);
    assert(session_index(taken, id) == i) by {
        let k = session_index(taken, id);
        if k < i {
            assert(taken[k].id == sessions[k].id);
        } else if i < k {
            assert(taken[i].id == sessions[i].id);
        }
    }
    assert(with_session(taken, id, down) =~= sessions);
}

// ---------------------------------------------------------------------------
// The life of a session
// ---------------------------------------------------------------------------
/// `after` is `before` with a failed probe of the session `id` noted.
pub open spec fn probe_failure_noted(
    before: Seq<ManagedSession>,
    after: Seq<ManagedSession>,
    id: u64,
    error: Seq<char>,
    request_replacement: bool,
    now: u128,
) -> bool {
    let i = session_index(before, id);
    &&& after.len() == before.len()
    &&& forall|j: int| 0 <= j < before.len() && j != i ==> after[j] == before[j]
    &&& i < before.len() ==> {
        let wished = if request_replacement {
            retired(before[i], now)
        } else {
            before[i]
        };
        &&& text_option(after[i].state.last_error) == Some(error)
        &&& after[i] == ManagedSession {
            state: SshSessionState {
                status: if wished.state.status == SshSessionStatus::Draining {
                    SshSessionStatus::Draining
                } else {
                    SshSessionStatus::Suspect
                },
                last_error: after[i].state.last_error,
                ..wished.state
            },
            ..wished
        }
    }
}

/// `session` after a sign of life.
pub open spec fn alive(
    session: ManagedSession,
    recovered: bool,
    sample: Option<u64>,
) -> ManagedSession {
    ManagedSession {
        state: SshSessionState {
            status: if recovered && !session.retire_requested {
                SshSessionStatus::Healthy
            } else {
                session.state.status
            },
            rtt_millis: match sample {
                Some(sample) => Some(smoothed_rtt(session.state.rtt_millis, sample)),
                None => session.state.rtt_millis,
            },
            last_error: None,
            ..session.state
        },
        ..session
    }
}

impl SessionPool {
    /// Takes in that a session is connected, and how many milliseconds that took.
    pub fn session_established(&mut self, id: u64, startup_millis: u64)
        ensures
            final(self).remote_owner == old(self).remote_owner,
            final(self).sessions@ == with_session(
                old(self).sessions@,
                id,
                |s: ManagedSession|
                    ManagedSession {
                        connected: true,
                        state: SshSessionState {
                            status: SshSessionStatus::Healthy,
                            rtt_millis: Some(startup_millis),
                            last_error: None,
                            ..s.state
                        },
                        ..s
                    },
            ),
    {
        match self.position(id) {
            Some(i) => {
                self.sessions[i].connected = true;
                self.sessions[i].state.status = SshSessionStatus::Healthy;
                self.sessions[i].state.rtt_millis = Some(startup_millis);
                self.sessions[i].state.last_error = None;
                assert(self.sessions@ =~= with_session(
                    old(self).sessions@,
                    id,
                    |s: ManagedSession|
                        ManagedSession {
                            connected: true,
                            state: SshSessionState {
                                status: SshSessionStatus::Healthy,
                                rtt_millis: Some(startup_millis),
                                last_error: None,
                                ..s.state
                            },
                            ..s
                        },
                ));
            },
            None => {},
        }
    }

    /// Takes in that a session has ended; tells whether it was to leave the pool.
    pub fn session_ended(&mut self, id: u64, error: &str) -> (retired: bool)
        ensures
            retired == (find_session(old(self).sessions@, id) matches Some(s)
                && s.retire_requested),
            final(self).remote_owner == old(self).remote_owner,
            final(self).sessions@.len() == old(self).sessions@.len(),
            ({
                let i = session_index(old(self).sessions@, id);
                &&& forall|j: int|
                    0 <= j < old(self).sessions@.len() && j != i ==> final(self).sessions@[j]
                        == old(self).sessions@[j]
                &&& i < old(self).sessions@.len() ==> {
                    let before = old(self).sessions@[i];
                    let after = final(self).sessions@[i];
                    &&& text_option(after.state.last_error) == Some(error@)
                    &&& after == ManagedSession {
                        connected: false,
                        state: SshSessionState {
                            status: SshSessionStatus::Offline,
                            last_error: after.state.last_error,
                            ..before.state
                        },
                        ..before
                    }
                }
            }),
    {
        match self.position(id) {
            Some(i) => {
                self.sessions[i].connected = false;
                self.sessions[i].state.status = SshSessionStatus::Offline;
                self.sessions[i].state.last_error = Some(error.to_owned());
                self.sessions[i].retire_requested
            },
            None => false,
        }
    }

    /// Notes a failed probe: the session is suspect, unless it is draining, and, where
    /// `request_replacement` says so, is to leave the pool.
    pub fn mark_session_probe_failure(
        &mut self,
        id: u64,
        error: &str,
        request_replacement: bool,
        now: u128,
    )
        ensures
            final(self).remote_owner == old(self).remote_owner,
            probe_failure_noted(
                old(self).sessions@,
                final(self).sessions@,
                id,
                error@,
                request_replacement,
                now,
            ),
    {
        match self.position(id) {
            Some(i) => {
                if request_replacement && !self.sessions[i].retire_requested {
                    self.sessions[i].retire_requested = true;
                    self.sessions[i].state.retirement_started = Some(now);
                }
                if self.sessions[i].state.status != SshSessionStatus::Draining {
                    self.sessions[i].state.status = SshSessionStatus::Suspect;
                }
                self.sessions[i].state.last_error = Some(error.to_owned());
            },
            None => {},
        }
    }

    /// Notes a sign of life: a session that is to stay is healthy again once `recovered`
    /// says so; a measured round-trip time counts.
    pub fn mark_session_alive(&mut self, id: u64, recovered: bool, sample: Option<u64>)
        ensures
            final(self).remote_owner == old(self).remote_owner,
            final(self).sessions@ == with_session(
                old(self).sessions@,
                id,
                |s: ManagedSession| alive(s, recovered, sample),
            ),
    {
        match self.position(id) {
            Some(i) => {
                if recovered && !self.sessions[i].retire_requested {
                    self.sessions[i].state.status = SshSessionStatus::Healthy;
                }
                match sample {
                    Some(sample) => {
                        let rtt: u64 = ewma_rtt(self.sessions[i].state.rtt_millis, sample);
                        self.sessions[i].state.rtt_millis = Some(rtt);
                    },
                    None => {},
                }
                self.sessions[i].state.last_error = None;
                assert(self.sessions@ =~= with_session(
                    old(self).sessions@,
                    id,
                    |s: ManagedSession| alive(s, recovered, sample),
                ));
            },
            None => {},
        }
    }

    /// Takes the session `id` out of the pool; tells whether it held the remote forwards.
    pub fn remove_session(&mut self, id: u64) -> (owner_lost: bool)
        ensures
            owner_lost == (old(self).remote_owner == Some(id)),
            final(self).remote_owner == if owner_lost {
                None
            } else {
                old(self).remote_owner
            },
            final(self).sessions@ == old(self).sessions@.filter(|s: ManagedSession| s.id != id),
    {
        let ghost before = self.sessions@;
        let ghost stays = |s: ManagedSession| s.id != id;
        let mut kept: Vec<ManagedSession> = Vec::new();
        let mut rest: Vec<ManagedSession> = Vec::new();
        core::mem::swap(&mut rest, &mut self.sessions);
        while rest.len() > 0
            invariant
                stays == (|s: ManagedSession| s.id != id),
                kept@ + rest@.filter(stays) == before.filter(stays),
            decreases rest@.len(),
        {
            let ghost all = rest@;
            let session = rest.remove(0);
            proof {
                lemma_filter_front(all, stays);
                assert(all.drop_first() =~= rest@);
            }
            if session.id != id {
                let ghost done = kept@;
                kept.push(session);
                assert(kept@ + rest@.filter(stays) =~= done + (seq![session] + rest@.filter(
                    stays,
                )));
            } else {
                assert(kept@ + rest@.filter(stays) =~= kept@ + all.filter(stays));
            }
        }
        proof {
            assert(rest@.filter(stays) =~= Seq::<ManagedSession>::empty()) by {
                reveal(Seq::filter);
            }
        }
        assert(kept@ =~= before.filter(stays));
        self.sessions = kept;
        if self.remote_owner == Some(id) {
            self.remote_owner = None;
            true
        } else {
            false
        }
    }
}

proof fn lemma_filter_front(sessions: Seq<ManagedSession>, keep: spec_fn(ManagedSession) -> bool)
    requires
        sessions.len() > 0,
    ensures
        sessions.filter(keep) == if keep(sessions[0]) {
            seq![sessions[0]] + sessions.drop_first().filter(keep)
        } else {
            sessions.drop_first().filter(keep)
        },
    decreases sessions.len(),
{
    reveal(Seq::filter);
    if sessions.len() > 1 {
        lemma_filter_front(sessions.drop_last(), keep);
        assert(sessions.drop_last().drop_first() == sessions.drop_first().drop_last());
        assert(sessions.drop_first().last() == sessions.last());
        assert(sessions.filter(keep) =~= if keep(sessions[0]) {
            seq![sessions[0]] + sessions.drop_first().filter(keep)
        } else {
            sessions.drop_first().filter(keep)
        });
    } else {
        assert(sessions.drop_last() =~= Seq::<ManagedSession>::empty());
        assert(sessions.drop_first() =~= Seq::<ManagedSession>::empty());
        assert(sessions.filter(keep) =~= if keep(sessions[0]) {
            seq![sessions[0]] + sessions.drop_first().filter(keep)
        } else {
            sessions.drop_first().filter(keep)
        });
    }
}

// ---------------------------------------------------------------------------
// The state of the host
// ---------------------------------------------------------------------------
/// What is known of a host.
#[derive(Debug)]
pub struct SshNodeState {
    pub status: HealthStatus,
    pub rtt_millis: Option<u64>,
    pub restart_count: u64,
    pub last_error: Option<String>,
}

/// The least round-trip time of the serving sessions.
pub open spec fn best_rtt(sessions: Seq<ManagedSession>) -> Option<u64>
    decreases sessions.len(),
{
    if sessions.len() == 0 {
        None
    } else {
        let before = best_rtt(sessions.drop_last());
        let last = sessions.last();
        match (before, last.state.rtt_millis) {
            (None, rtt) => if last.serves() {
                rtt
            } else {
                None
            },
            (Some(current), Some(rtt)) => if last.serves() && rtt < current {
                Some(rtt)
            } else {
                Some(current)
            },
            (Some(current), None) => Some(current),
        }
    }
}

/// The last error that stands in the pool.
pub open spec fn latest_error(sessions: Seq<ManagedSession>) -> Option<Seq<char>>
    decreases sessions.len(),
{
    if sessions.len() == 0 {
        None
    } else if sessions.last().state.last_error is Some {
        text_option(sessions.last().state.last_error)
    } else {
        latest_error(sessions.drop_last())
    }
}

/// Some session is not offline.
pub open spec fn is_active(sessions: Seq<ManagedSession>) -> bool {
    exists|i: int|
        0 <= i < sessions.len() && (#[trigger] sessions[i]).state.status
            != SshSessionStatus::Offline
}

impl SshNodeState {
    /// What is known of a host before its first session.
    pub fn unknown() -> (r: SshNodeState)
        ensures
            r.status == HealthStatus::Unknown,
            r.rtt_millis is None,
            r.restart_count == 0,
            r.last_error is None,
    {
        SshNodeState {
            status: HealthStatus::Unknown,
            rtt_millis: None,
            restart_count: 0,
            last_error: None,
        }
    }

    /// Takes in the sessions of the host: it is healthy with a known round-trip time of a
    /// serving session, offline without any session, else degraded.
    pub fn refresh(&mut self, sessions: &Vec<ManagedSession>)
        ensures
            final(self).restart_count == old(self).restart_count,
            final(self).rtt_millis == best_rtt(sessions@),
            text_option(final(self).last_error) == latest_error(sessions@),
            final(self).status == if best_rtt(sessions@) is Some {
                HealthStatus::Healthy
            } else if is_active(sessions@) {
                HealthStatus::Degraded
            } else {
                HealthStatus::Offline
            },
    {
        let mut rtt: Option<u64> = None;
        let mut active: bool = false;
        let mut error: Option<String> = None;
        for i in 0..sessions.len()
            invariant
                rtt == best_rtt(sessions@.take(i as int)),
                text_option(error) == latest_error(sessions@.take(i as int)),
                active == is_active(sessions@.take(i as int)),
        {
            let session = &sessions[i];
            let ghost next = sessions@.take(i + 1);
            assert(next.drop_last() == sessions@.take(i as int));
            assert(next.last() == sessions@[i as int]);
            let was_active = active;
            active = active || session.state.status != SshSessionStatus::Offline;
            proof {
                if was_active {
                    let j = choose|j: int|
                        0 <= j < i && (#[trigger] sessions@.take(i as int)[j]).state.status
                            != SshSessionStatus::Offline;
                    assert(next[j] == sessions@.take(i as int)[j]);
                }
                if is_active(next) {
                    let j = choose|j: int|
                        0 <= j < next.len() && (#[trigger] next[j]).state.status
                            != SshSessionStatus::Offline;
                    if j < i {
                        assert(sessions@.take(i as int)[j] == next[j]);
                    }
                } else {
                    assert(next[i as int].state.status == SshSessionStatus::Offline);
                }
                if session.state.status != SshSessionStatus::Offline {
                    assert(next[i as int].state.status != SshSessionStatus::Offline);
                }
            }
            if session.is_serving() {
                rtt = match (rtt, session.state.rtt_millis) {
                    (None, sample) => sample,
                    (Some(current), Some(sample)) => if sample < current {
                        Some(sample)
                    } else {
                        Some(current)
                    },
                    (Some(current), None) => Some(current),
                };
            }
            if session.state.last_error.is_some() {
                error = copy_text_option(&session.state.last_error);
            }
        }
        assert(sessions@.take(sessions@.len() as int) == sessions@);
        self.status = if rtt.is_some() {
            HealthStatus::Healthy
        } else if active {
            HealthStatus::Degraded
        } else {
            HealthStatus::Offline
        };
        self.rtt_millis = rtt;
        self.last_error = error;
    }
}

// ---------------------------------------------------------------------------
// The holder of the remote forwards
// ---------------------------------------------------------------------------
/// What is to be done about the remote forwards.
#[derive(Debug, Clone, Copy, PartialEq, Eq, Structural)]
pub enum OwnerDecision {
    /// Nothing: there are none, or their holder serves them.
    Settled,
    /// Take them from a holder that leaves; no session is ready to take them over.
    Release { owner: u64 },
    /// Wait: no session is ready to take them.
    NoStandby,
    /// Take them from `from`, where that session is still there, and give them to `to`.
    Handover { from: Option<u64>, to: u64 },
}

/// Round-trip times of the sessions at `places`; the largest number where none is known.
pub open spec fn standby_keys(sessions: Seq<ManagedSession>, places: Seq<usize>) -> Seq<u64> {
    places.map_values(
        |p: usize|
            match sessions[p as int].state.rtt_millis {
                Some(rtt) => rtt,
                None => u64::MAX,
            },
    )
}

/// The session that holds the remote forwards, where it is still there.
pub open spec fn current_owner(
    sessions: Seq<ManagedSession>,
    owner: Option<u64>,
) -> Option<ManagedSession> {
    match owner {
        Some(id) => find_session(sessions, id),
        None => None,
    }
}

/// Whether the holder of the remote forwards serves them.
pub open spec fn owner_serves(sessions: Seq<ManagedSession>, owner: Option<u64>) -> bool {
    current_owner(sessions, owner) matches Some(s) && s.serves() && s.connected
}

impl SessionPool {
    /// Decides about the remote forwards of the host.
    pub fn remote_owner_decision(&self, has_remote_forwards: bool) -> (r: OwnerDecision)
        ensures
            ({
                let sessions = self.sessions@;
                let current = current_owner(sessions, self.remote_owner);
                let standby = positions(sessions, Group::Standby(self.remote_owner));
                match r {
                    OwnerDecision::Settled => !has_remote_forwards || owner_serves(
                        sessions,
                        self.remote_owner,
                    ),
                    OwnerDecision::Release { owner } => {
                        &&& has_remote_forwards
                        &&& !owner_serves(sessions, self.remote_owner)
                        &&& standby.len() == 0
                        &&& current matches Some(s) && s.retire_requested && s.id == owner
                    },
                    OwnerDecision::NoStandby => {
                        &&& has_remote_forwards
                        &&& !owner_serves(sessions, self.remote_owner)
                        &&& standby.len() == 0
                        &&& !(current matches Some(s) && s.retire_requested)
                    },
                    OwnerDecision::Handover { from, to } => {
                        &&& has_remote_forwards
                        &&& !owner_serves(sessions, self.remote_owner)
                        &&& from == (match current {
                            Some(s) => Some(s.id),
                            None => None,
                        })
                        &&& exists|k: int| #[trigger]
                            is_first_minimum(standby_keys(sessions, standby), k) && to
                                == sessions[standby[k] as int].id
                    },
                }
            }),
    {
        if !has_remote_forwards {
            return OwnerDecision::Settled;
        }
        let current: Option<usize> = match self.remote_owner {
            Some(id) => self.position(id),
            None => None,
        };
        proof {
            if self.remote_owner is Some {
                lemma_session_index(self.sessions@, self.remote_owner->0);
            }
        }
        match current {
            Some(i) => {
                if self.sessions[i].is_serving() && self.sessions[i].connected {
                    return OwnerDecision::Settled;
                }
            },
            None => {},
        }
        let mut standby: Vec<usize> = Vec::new();
        let mut keys: Vec<u64> = Vec::new();
        let ghost group = Group::Standby(self.remote_owner);
        for i in 0..self.sessions.len()
            invariant
                group == Group::Standby(self.remote_owner),
                standby@ == positions(self.sessions@.take(i as int), group),
                keys@ == standby_keys(self.sessions@, standby@),
        {
            let session = &self.sessions[i];
            assert(self.sessions@.take(i + 1).drop_last() == self.sessions@.take(i as int));
            if self.remote_owner != Some(session.id) && session.is_serving() {
                keys.push(session.state.rtt_millis.unwrap_or(u64::MAX));
                standby.push(i);
                assert(keys@ =~= standby_keys(self.sessions@, standby@));
            }
        }
        assert(self.sessions@.take(self.sessions@.len() as int) == self.sessions@);
        proof {
            lemma_positions(self.sessions@, group);
        }
        if standby.is_empty() {
            match current {
                Some(i) => {
                    if self.sessions[i].retire_requested {
                        return OwnerDecision::Release { owner: self.sessions[i].id };
                    }
                },
                None => {},
            }
            return OwnerDecision::NoStandby;
        }
        let from: Option<u64> = match current {
            Some(i) => Some(self.sessions[i].id),
            None => None,
        };
        let k = order::first_minimum(&keys);
        OwnerDecision::Handover { from, to: self.sessions[standby[k]].id }
    }

    /// Takes in who holds the remote forwards.
    pub fn set_remote_owner(&mut self, owner: Option<u64>)
        ensures
            final(self).remote_owner == owner,
            final(self).sessions@ == old(self).sessions@,
    {
        self.remote_owner = owner;
    }
}

/// The remote forwards are handed only to a serving session that does not hold them.
pub proof fn handover_goes_to_a_serving_session(
    sessions: Seq<ManagedSession>,
    owner: Option<u64>,
    k: int,
)
    requires
        sessions.len() <= usize::MAX,
        is_first_minimum(
            standby_keys(sessions, positions(sessions, Group::Standby(owner))),
            k,
        ),
    ensures
        ({
            let to = sessions[positions(sessions, Group::Standby(owner))[k] as int];
            &&& to.serves()
            &&& owner != Some(to.id)
        }),
{
    lemma_positions(sessions, Group::Standby(owner));
}

// ---------------------------------------------------------------------------
// Draining
// ---------------------------------------------------------------------------
/// What becomes of a draining session.
#[derive(Debug, Clone, Copy, PartialEq, Eq, Structural)]
pub enum SessionDrainDecision {
    Waiting,
    Drained,
    Stalled,
}

impl SessionDrainDecision {
    /// Why the session is disconnected, where it is.
    pub fn disconnect_reason(self) -> (r: Option<&'static str>)
        ensures
            (match r {
                Some(reason) => reason@ == match self {
                    SessionDrainDecision::Drained => {
                        "replacement session is ready and active channels drained"@
                    },
                    _ => "SSH session made no payload progress before the drain timeout"@,
                },
                None => true,
            }),
            r is None == (self == SessionDrainDecision::Waiting),
    {
        match self {
            SessionDrainDecision::Waiting => None,
            SessionDrainDecision::Drained => Some(
                "replacement session is ready and active channels drained",
            ),
            SessionDrainDecision::Stalled => Some(
                "SSH session made no payload progress before the drain timeout",
            ),
        }
    }
}

/// Drained without channels; waiting while data moves; stalled once none has moved for the
/// timeout.
pub open spec fn drain_decision(
    state: SshSessionState,
    active_channels: usize,
    payload_generation: u64,
    now: u128,
    drain_timeout: u128,
) -> SessionDrainDecision {
    if active_channels == 0 {
        SessionDrainDecision::Drained
    } else if payload_generation != state.drain_payload_generation {
        SessionDrainDecision::Waiting
    } else if state.drain_idle_since matches Some(since) && (if now >= since {
        now - since
    } else {
        0
    }) >= drain_timeout {
        SessionDrainDecision::Stalled
    } else {
        SessionDrainDecision::Waiting
    }
}

/// The state after the decision: data that moved starts the wait anew.
pub open spec fn after_drain_decision(
    state: SshSessionState,
    active_channels: usize,
    payload_generation: u64,
    now: u128,
) -> SshSessionState {
    if active_channels > 0 && payload_generation != state.drain_payload_generation {
        SshSessionState {
            drain_payload_generation: payload_generation,
            drain_idle_since: Some(now),
            ..state
        }
    } else {
        state
    }
}

/// Decides what becomes of a draining session.
pub fn session_drain_decision(
    state: &mut SshSessionState,
    active_channels: usize,
    payload_generation: u64,
    now: u128,
    drain_timeout: u128,
) -> (r: SessionDrainDecision)
    ensures
        r == drain_decision(*old(state), active_channels, payload_generation, now, drain_timeout),
        *final(state) == after_drain_decision(
            *old(state),
            active_channels,
            payload_generation,
            now,
        ),
{
    if active_channels == 0 {
        return SessionDrainDecision::Drained;
    }
    if payload_generation != state.drain_payload_generation {
        state.drain_payload_generation = payload_generation;
        state.drain_idle_since = Some(now);
        return SessionDrainDecision::Waiting;
    }
    match state.drain_idle_since {
        Some(since) => if now.saturating_sub(since) >= drain_timeout {
            SessionDrainDecision::Stalled
        } else {
            SessionDrainDecision::Waiting
        },
        None => SessionDrainDecision::Waiting,
    }
}

/// The number of serving sessions.
pub open spec fn serving_count(sessions: Seq<ManagedSession>) -> int
    decreases sessions.len(),
{
    if sessions.len() == 0 {
        0
    } else {
        serving_count(sessions.drop_last()) + if sessions.last().serves() {
            1int
        } else {
            0
        }
    }
}

/// The number of draining sessions.
pub open spec fn draining_count(sessions: Seq<ManagedSession>) -> int
    decreases sessions.len(),
{
    if sessions.len() == 0 {
        0
    } else {
        draining_count(sessions.drop_last()) + if sessions.last().state.status
            == SshSessionStatus::Draining {
            1int
        } else {
            0
        }
    }
}

/// Whether a round of draining looks at a session: it is to leave, does not hold the remote
/// forwards, and is not being put out.
pub open spec fn drain_looks_at(session: ManagedSession, owner: Option<u64>) -> bool {
    session.retire_requested && owner != Some(session.id)
        && !session.state.forced_turnover_requested
}

/// A session that has just begun to drain.
pub open spec fn draining_since(session: ManagedSession, now: u128) -> ManagedSession {
    ManagedSession {
        state: SshSessionState {
            status: SshSessionStatus::Draining,
            drain_started: Some(now),
            drain_idle_since: Some(now),
            drain_payload_generation: session.payload_generation,
            ..session.state
        },
        ..session
    }
}

/// One session in a round of draining. `busy` says that some session is draining; a session
/// begins to drain only where none is. The result is the session after the round, whether
/// some session is draining then, and what was decided about it.
pub open spec fn drain_step(
    session: ManagedSession,
    busy: bool,
    owner: Option<u64>,
    now: u128,
    drain_timeout: u128,
) -> (ManagedSession, bool, Option<SessionDrainDecision>) {
    let draining = session.state.status == SshSessionStatus::Draining;
    if !drain_looks_at(session, owner) || (!draining && busy) {
        (session, busy, None)
    } else {
        let begun = if draining {
            session
        } else {
            draining_since(session, now)
        };
        (
            ManagedSession {
                state: after_drain_decision(
                    begun.state,
                    begun.in_flight,
                    begun.payload_generation,
                    now,
                ),
                ..begun
            },
            true,
            Some(
                drain_decision(
                    begun.state,
                    begun.in_flight,
                    begun.payload_generation,
                    now,
                    drain_timeout,
                ),
            ),
        )
    }
}

/// The first `n` sessions after a round of draining, whether some session is draining then,
/// and which sessions are to be disconnected.
pub open spec fn drain_round(
    sessions: Seq<ManagedSession>,
    n: int,
    busy: bool,
    owner: Option<u64>,
    now: u128,
    drain_timeout: u128,
) -> (Seq<ManagedSession>, bool, Seq<(u64, SessionDrainDecision)>)
    decreases n,
{
    if n <= 0 {
        (Seq::empty(), busy, Seq::empty())
    } else {
        let before = drain_round(sessions, n - 1, busy, owner, now, drain_timeout);
        let step = drain_step(sessions[n - 1], before.1, owner, now, drain_timeout);
        (
            before.0.push(step.0),
            step.1,
            if step.0.connected && (step.2 matches Some(d) && d
                != SessionDrainDecision::Waiting) {
                before.2.push((step.0.id, step.2->0))
            } else {
                before.2
            },
        )
    }
}

/// Some session is draining.
pub open spec fn some_draining(sessions: Seq<ManagedSession>) -> bool {
    exists|i: int|
        0 <= i < sessions.len() && (#[trigger] sessions[i]).state.status
            == SshSessionStatus::Draining
}

impl SessionPool {
    /// The number of serving sessions.
    pub fn count_serving(&self) -> (r: usize)
        ensures
            r == serving_count(self.sessions@),
    {
        let mut count: usize = 0;
        for i in 0..self.sessions.len()
            invariant
                count == serving_count(self.sessions@.take(i as int)),
                count <= i,
        {
            assert(self.sessions@.take(i + 1).drop_last() == self.sessions@.take(i as int));
            if self.sessions[i].is_serving() {
                count = count + 1;
            }
        }
        assert(self.sessions@.take(self.sessions@.len() as int) == self.sessions@);
        count
    }

    /// One round of draining the sessions that are to leave; gives those to disconnect. While
    /// fewer than `minimum_healthy` sessions serve, nothing happens.
    pub fn drain_replaced_sessions(
        &mut self,
        minimum_healthy: usize,
        drain_timeout: u128,
        now: u128,
    ) -> (r: Vec<(u64, SessionDrainDecision)>)
        ensures
            final(self).remote_owner == old(self).remote_owner,
            ({
                let sessions = old(self).sessions@;
                if serving_count(sessions) < minimum_healthy {
                    final(self).sessions@ == sessions && r@.len() == 0
                } else {
                    let round = drain_round(
                        sessions,
                        sessions.len() as int,
                        some_draining(sessions),
                        old(self).remote_owner,
                        now,
                        drain_timeout,
                    );
                    final(self).sessions@ == round.0 && r@ == round.2
                }
            }),
    {
        let mut out: Vec<(u64, SessionDrainDecision)> = Vec::new();
        if self.count_serving() < minimum_healthy {
            return out;
        }
        let ghost start = self.sessions@;
        let mut busy: bool = false;
        for i in 0..self.sessions.len()
            invariant
                self.sessions@ == start,
                busy == some_draining(start.take(i as int)),
        {
            let ghost next = start.take(i + 1);
            let was = busy;
            busy = busy || self.sessions[i].state.status == SshSessionStatus::Draining;
            proof {
                if was {
                    let j = choose|j: int|
                        0 <= j < i && (#[trigger] start.take(i as int)[j]).state.status
                            == SshSessionStatus::Draining;
                    assert(next[j] == start.take(i as int)[j]);
                }
                if some_draining(next) {
                    let j = choose|j: int|
                        0 <= j < next.len() && (#[trigger] next[j]).state.status
                            == SshSessionStatus::Draining;
                    if j < i {
                        assert(start.take(i as int)[j] == next[j]);
                    }
                } else {
                    assert(next[i as int].state.status != SshSessionStatus::Draining);
                }
                if start[i as int].state.status == SshSessionStatus::Draining {
                    assert(next[i as int].state.status == SshSessionStatus::Draining);
                }
            }
        }
        assert(start.take(start.len() as int) == start);
        let ghost first_busy = busy;
        let owner = self.remote_owner;
        let n: usize = self.sessions.len();
        for i in 0..n
            invariant
                n == start.len(),
                first_busy == some_draining(start),
                self.remote_owner == owner,
                self.sessions@.len() == n,
                ({
                    let round = drain_round(start, i as int, first_busy, owner, now, drain_timeout);
                    &&& round.0.len() == i
                    &&& self.sessions@ == round.0 + start.skip(i as int)
                    &&& busy == round.1
                    &&& out@ == round.2
                }),
        {
            let ghost before = drain_round(start, i as int, first_busy, owner, now, drain_timeout);
            let ghost after = drain_round(start, i + 1, first_busy, owner, now, drain_timeout);
            assert(self.sessions@[i as int] == start[i as int]);
            let ghost here = self.sessions@;
            let looked_at = self.sessions[i].retire_requested && owner != Some(self.sessions[i].id)
                && !self.sessions[i].state.forced_turnover_requested;
            let draining = self.sessions[i].state.status == SshSessionStatus::Draining;
            if looked_at && (draining || !busy) {
                let payload_generation: u64 = self.sessions[i].payload_generation;
                let in_flight: usize = self.sessions[i].in_flight;
                if !draining {
                    self.sessions[i].state.status = SshSessionStatus::Draining;
                    self.sessions[i].state.drain_started = Some(now);
                    self.sessions[i].state.drain_idle_since = Some(now);
                    self.sessions[i].state.drain_payload_generation = payload_generation;
                }
                busy = true;
                let decision = session_drain_decision(
                    &mut self.sessions[i].state,
                    in_flight,
                    payload_generation,
                    now,
                    drain_timeout,
                );
                if decision != SessionDrainDecision::Waiting && self.sessions[i].connected {
                    out.push((self.sessions[i].id, decision));
                }
            }
            assert(self.sessions@[i as int] == after.0[i as int]);
            assert(self.sessions@ =~= here.update(i as int, after.0[i as int]));
            assert(self.sessions@ =~= after.0 + start.skip(i + 1));
        }
        assert(self.sessions@ =~= drain_round(
            start,
            n as int,
            first_busy,
            owner,
            now,
            drain_timeout,
        ).0);
        out
    }
}

/// A round of draining looks at one of the first `n` sessions, and that has the id `id`.
spec fn looked_at(sessions: Seq<ManagedSession>, n: int, owner: Option<u64>, id: u64) -> bool {
    exists|i: int|
        0 <= i < n && #[trigger] drain_looks_at(sessions[i], owner) && sessions[i].id == id
}

proof fn lemma_drain_round(
    sessions: Seq<ManagedSession>,
    n: int,
    busy: bool,
    owner: Option<u64>,
    now: u128,
    drain_timeout: u128,
)
    requires
        0 <= n <= sessions.len(),
    ensures
        ({
            let round = drain_round(sessions, n, busy, owner, now, drain_timeout);
            &&& round.0.len() == n
            &&& busy ==> round.1
            &&& forall|i: int| #![trigger round.0[i]]
                0 <= i < n ==> {
                    &&& round.0[i].id == sessions[i].id
                    &&& round.0[i].retire_requested == sessions[i].retire_requested
                    &&& !drain_looks_at(sessions[i], owner) ==> round.0[i] == sessions[i]
                    &&& busy && sessions[i].state.status != SshSessionStatus::Draining
                        ==> round.0[i] == sessions[i]
                    &&& sessions[i].state.status == SshSessionStatus::Draining
                        ==> round.0[i].state.status == SshSessionStatus::Draining
                }
            &&& !round.1 ==> round.0 == sessions.take(n)
            &&& draining_count(round.0) <= draining_count(sessions.take(n)) + if busy || !round.1 {
                0int
            } else {
                1
            }
            &&& forall|k: int| #![trigger round.2[k]]
                0 <= k < round.2.len() ==> looked_at(sessions, n, owner, round.2[k].0)
        }),
    decreases n,
{
    if n > 0 {
        lemma_drain_round(sessions, n - 1, busy, owner, now, drain_timeout);
        let before = drain_round(sessions, n - 1, busy, owner, now, drain_timeout);
        let step = drain_step(sessions[n - 1], before.1, owner, now, drain_timeout);
        let round = drain_round(sessions, n, busy, owner, now, drain_timeout);
        assert(round.0.drop_last() =~= before.0);
        assert(sessions.take(n).drop_last() =~= sessions.take(n - 1));
        assert forall|i: int| #![trigger round.0[i]] 0 <= i < n implies {
            &&& round.0[i].id == sessions[i].id
            &&& round.0[i].retire_requested == sessions[i].retire_requested
            &&& !drain_looks_at(sessions[i], owner) ==> round.0[i] == sessions[i]
            &&& busy && sessions[i].state.status != SshSessionStatus::Draining ==> round.0[i]
                == sessions[i]
            &&& sessions[i].state.status == SshSessionStatus::Draining ==> round.0[i].state.status
                == SshSessionStatus::Draining
        } by {
            if i < n - 1 {
                assert(round.0[i] == before.0[i]);
            }
        }
        if !round.1 {
            assert(round.0 =~= sessions.take(n));
        }
        assert(draining_count(round.0) <= draining_count(sessions.take(n)) + if busy || !round.1 {
            0int
        } else {
            1
        }) by {
            assert(round.0.last() == step.0);
            assert(sessions.take(n).last() == sessions[n - 1]);
            assert(draining_count(round.0) == draining_count(before.0) + if step.0.state.status
                == SshSessionStatus::Draining {
                1int
            } else {
                0
            });
            if !before.1 {
                assert(before.0 == sessions.take(n - 1));
            }
        }
        assert forall|k: int| #![trigger round.2[k]] 0 <= k < round.2.len() implies looked_at(
            sessions,
            n,
            owner,
            round.2[k].0,
        ) by {
            if k < before.2.len() {
                assert(round.2[k] == before.2[k]);
                let i = choose|i: int|
                    0 <= i < n - 1 && #[trigger] drain_looks_at(sessions[i], owner)
                        && sessions[i].id == before.2[k].0;
                assert(drain_looks_at(sessions[i], owner));
            } else {
                assert(drain_looks_at(sessions[n - 1], owner));
            }
        }
    } else {
        assert(sessions.take(0) =~= Seq::<ManagedSession>::empty());
    }
}

/// Sessions drain one after the other: a round makes no session drain while another does, and
/// at most one otherwise.
pub proof fn sessions_drain_serially(
    sessions: Seq<ManagedSession>,
    owner: Option<u64>,
    now: u128,
    drain_timeout: u128,
)
    ensures
        ({
            let round = drain_round(
                sessions,
                sessions.len() as int,
                some_draining(sessions),
                owner,
                now,
                drain_timeout,
            );
            &&& round.0.len() == sessions.len()
            &&& some_draining(sessions) ==> draining_count(round.0) <= draining_count(sessions)
            &&& !some_draining(sessions) ==> draining_count(round.0) <= 1
        }),
{
    lemma_drain_round(
        sessions,
        sessions.len() as int,
        some_draining(sessions),
        owner,
        now,
        drain_timeout,
    );
    assert(sessions.take(sessions.len() as int) == sessions);
    if !some_draining(sessions) {
        lemma_none_draining(sessions);
    }
}

proof fn lemma_none_draining(sessions: Seq<ManagedSession>)
    requires
        !some_draining(sessions),
    ensures
        draining_count(sessions) == 0,
    decreases sessions.len(),
{
    if sessions.len() > 0 {
        assert(sessions[sessions.len() - 1].state.status != SshSessionStatus::Draining);
        assert(!some_draining(sessions.drop_last())) by {
            assert forall|i: int| 0 <= i < sessions.drop_last().len() implies (
            #[trigger] sessions.drop_last()[i]).state.status != SshSessionStatus::Draining by {
                assert(sessions.drop_last()[i] == sessions[i]);
            }
        }
        lemma_none_draining(sessions.drop_last());
    }
}

/// A round of draining leaves alone, and disconnects none of, the sessions that are to stay,
/// the holder of the remote forwards, and those that are being put out.
pub proof fn draining_spares_the_others(
    sessions: Seq<ManagedSession>,
    owner: Option<u64>,
    now: u128,
    drain_timeout: u128,
    i: int,
)
    requires
        0 <= i < sessions.len(),
        !drain_looks_at(sessions[i], owner),
        forall|j: int, k: int|
            0 <= j < sessions.len() && 0 <= k < sessions.len() && j != k ==> (
            #[trigger] sessions[j]).id != (#[trigger] sessions[k]).id,
    ensures
        ({
            let round = drain_round(
                sessions,
                sessions.len() as int,
                some_draining(sessions),
                owner,
                now,
                drain_timeout,
            );
            &&& round.0[i] == sessions[i]
            &&& forall|k: int| 0 <= k < round.2.len() ==> (#[trigger] round.2[k]).0 != sessions[i].id
        }),
{
    let busy = some_draining(sessions);
    lemma_drain_round(sessions, sessions.len() as int, busy, owner, now, drain_timeout);
    let round = drain_round(sessions, sessions.len() as int, busy, owner, now, drain_timeout);
    assert forall|k: int| 0 <= k < round.2.len() implies (#[trigger] round.2[k]).0
        != sessions[i].id by {
        assert(looked_at(sessions, sessions.len() as int, owner, round.2[k].0));
        let j = choose|j: int|
            0 <= j < sessions.len() && #[trigger] drain_looks_at(sessions[j], owner)
                && sessions[j].id == round.2[k].0;
        assert(sessions[j].id != sessions[i].id);
    }
}

// ---------------------------------------------------------------------------
// Putting a session out
// ---------------------------------------------------------------------------
/// How long a session has been leaving: since it began to drain, else since the first wish
/// that it leave.
pub open spec fn leaving_for(session: ManagedSession, now: u128) -> u128 {
    let since = match session.state.drain_started {
        Some(at) => Some(at),
        None => session.state.retirement_started,
    };
    match since {
        Some(at) => if now >= at {
            (now - at) as u128
        } else {
            0
        },
        None => 0,
    }
}

/// How long the sessions at `places` have been leaving.
pub open spec fn leaving_times(
    sessions: Seq<ManagedSession>,
    places: Seq<usize>,
    now: u128,
) -> Seq<u128> {
    places.map_values(|p: usize| leaving_for(sessions[p as int], now))
}

/// The sessions among which the one to put out is: those that do not hold the remote
/// forwards, where there are any.
pub open spec fn turnover_positions(
    sessions: Seq<ManagedSession>,
    owner: Option<u64>,
) -> Seq<usize> {
    let others = positions(sessions, Group::LeavingBut(owner));
    if others.len() > 0 {
        others
    } else {
        positions(sessions, Group::Leaving)
    }
}

/// `session` as it is put out.
pub open spec fn put_out(session: ManagedSession, now: u128) -> ManagedSession {
    ManagedSession {
        state: SshSessionState {
            forced_turnover_requested: true,
            status: SshSessionStatus::Draining,
            drain_started: match session.state.drain_started {
                Some(at) => Some(at),
                None => Some(now),
            },
            ..session.state
        },
        ..session
    }
}

impl SessionPool {
    /// The session that has been leaving for the longest time; one that holds the remote
    /// forwards only where no other is leaving.
    pub fn oldest_retiring_session(&self, now: u128) -> (r: Option<usize>)
        ensures
            ({
                let places = turnover_positions(self.sessions@, self.remote_owner);
                match r {
                    Some(i) => exists|k: int| #[trigger]
                        is_last_maximum(leaving_times(self.sessions@, places, now), k) && i
                            == places[k] && i < self.sessions@.len(),
                    None => places.len() == 0,
                }
            }),
    {
        let owner = self.remote_owner;
        let ghost all = Group::Leaving;
        let ghost but = Group::LeavingBut(owner);
        let mut leaving: Vec<usize> = Vec::new();
        let mut others: Vec<usize> = Vec::new();
        for i in 0..self.sessions.len()
            invariant
                owner == self.remote_owner,
                all == Group::Leaving,
                but == Group::LeavingBut(owner),
                leaving@ == positions(self.sessions@.take(i as int), all),
                others@ == positions(self.sessions@.take(i as int), but),
        {
            let session = &self.sessions[i];
            assert(self.sessions@.take(i + 1).drop_last() == self.sessions@.take(i as int));
            if session.retire_requested && session.state.status != SshSessionStatus::Offline
                && !session.state.forced_turnover_requested {
                leaving.push(i);
                if owner != Some(session.id) {
                    others.push(i);
                }
            }
        }
        assert(self.sessions@.take(self.sessions@.len() as int) == self.sessions@);
        proof {
            lemma_positions(self.sessions@, all);
            lemma_positions(self.sessions@, but);
        }
        let places: Vec<usize> = if others.len() > 0 {
            others
        } else {
            leaving
        };
        if places.is_empty() {
            return None;
        }
        let mut times: Vec<u128> = Vec::new();
        for k in 0..places.len()
            invariant
                forall|k: int|
                    0 <= k < places@.len() ==> 0 <= #[trigger] places@[k] < self.sessions@.len(),
                times@ == leaving_times(self.sessions@, places@.take(k as int), now),
        {
            let state = &self.sessions[places[k]].state;
            let since: Option<u128> = if state.drain_started.is_some() {
                state.drain_started
            } else {
                state.retirement_started
            };
            let time: u128 = match since {
                Some(at) => now.saturating_sub(at),
                None => 0,
            };
            times.push(time);
            assert(places@.take(k + 1) == places@.take(k as int).push(places@[k as int]));
            assert(times@ =~= leaving_times(self.sessions@, places@.take(k + 1), now));
        }
        assert(places@.take(places@.len() as int) == places@);
        assert(places@ == turnover_positions(self.sessions@, owner));
        let k = order::last_maximum(&times);
        assert(is_last_maximum(leaving_times(self.sessions@, places@, now), k as int));
        Some(places[k])
    }

    /// Begins to put out the session that has been leaving for the longest time; gives its id.
    pub fn begin_forced_turnover(&mut self, now: u128) -> (r: Option<u64>)
        ensures
            final(self).remote_owner == old(self).remote_owner,
            final(self).sessions@.len() == old(self).sessions@.len(),
            ({
                let sessions = old(self).sessions@;
                let places = turnover_positions(sessions, old(self).remote_owner);
                match r {
                    Some(id) => exists|k: int| #[trigger]
                        is_last_maximum(leaving_times(sessions, places, now), k) && {
                            let i = places[k] as int;
                            let after = final(self).sessions@[i];
                            &&& 0 <= i < sessions.len()
                            &&& sessions[i].connected
                            &&& id == sessions[i].id
                            &&& text_option(after.state.last_error) == Some(
                                "forced turnover because all max-sessions slots were draining"@,
                            )
                            &&& final(self).sessions@ == sessions.update(
                                i,
                                ManagedSession {
                                    state: SshSessionState {
                                        last_error: after.state.last_error,
                                        ..put_out(sessions[i], now).state
                                    },
                                    ..sessions[i]
                                },
                            )
                        },
                    None => {
                        &&& final(self).sessions@ == sessions
                        &&& places.len() == 0 || exists|k: int| #[trigger]
                            is_last_maximum(leaving_times(sessions, places, now), k)
                                && !sessions[places[k] as int].connected
                    },
                }
            }),
    {
        match self.oldest_retiring_session(now) {
            Some(i) => {
                let ghost sessions = self.sessions@;
                let ghost places = turnover_positions(sessions, self.remote_owner);
                let ghost k = choose|k: int| #[trigger]
                    is_last_maximum(leaving_times(sessions, places, now), k) && i == places[k];
                if !self.sessions[i].connected {
                    assert(is_last_maximum(leaving_times(sessions, places, now), k));
                    return None;
                }
                self.sessions[i].state.forced_turnover_requested = true;
                self.sessions[i].state.status = SshSessionStatus::Draining;
                if self.sessions[i].state.drain_started.is_none() {
                    self.sessions[i].state.drain_started = Some(now);
                }
                self.sessions[i].state.last_error = Some(
                    "forced turnover because all max-sessions slots were draining".to_owned(),
                );
                assert(is_last_maximum(leaving_times(sessions, places, now), k));
                assert(self.sessions@ =~= sessions.update(
                    i as int,
                    ManagedSession {
                        state: SshSessionState {
                            last_error: self.sessions@[i as int].state.last_error,
                            ..put_out(sessions[i as int], now).state
                        },
                        ..sessions[i as int]
                    },
                ));
                Some(self.sessions[i].id)
            },
            None => None,
        }
    }

    /// Takes in that a session could not be put out.
    pub fn forced_turnover_failed(&mut self, id: u64, error: &str)
        ensures
            final(self).remote_owner == old(self).remote_owner,
            final(self).sessions@.len() == old(self).sessions@.len(),
            ({
                let i = session_index(old(self).sessions@, id);
                &&& forall|j: int|
                    0 <= j < old(self).sessions@.len() && j != i ==> final(self).sessions@[j]
                        == old(self).sessions@[j]
                &&& i < old(self).sessions@.len() ==> {
                    let before = old(self).sessions@[i];
                    let after = final(self).sessions@[i];
                    &&& text_option(after.state.last_error) == Some(
                        "failed to force draining session turnover: "@ + error@,
                    )
                    &&& after == ManagedSession {
                        state: SshSessionState {
                            forced_turnover_requested: false,
                            last_error: after.state.last_error,
                            ..before.state
                        },
                        ..before
                    }
                }
            }),
    {
        match self.position(id) {
            Some(i) => {
                self.sessions[i].state.forced_turnover_requested = false;
                let mut message = "failed to force draining session turnover: ".to_owned();
                message.append(error);
                self.sessions[i].state.last_error = Some(message);
            },
            None => {},
        }
    }
}

/// The session that is put out does not hold the remote forwards where another is leaving, and
/// no session of its kind has been leaving for longer.
pub proof fn turnover_prefers_the_oldest_non_owner(
    sessions: Seq<ManagedSession>,
    owner: Option<u64>,
    now: u128,
    k: int,
    other: int,
)
    requires
        sessions.len() <= usize::MAX,
        is_last_maximum(leaving_times(sessions, turnover_positions(sessions, owner), now), k),
        0 <= other < sessions.len(),
        is_leaving(sessions[other]),
        owner != Some(sessions[other].id),
    ensures
        ({
            let out = sessions[turnover_positions(sessions, owner)[k] as int];
            &&& is_leaving(out)
            &&& owner != Some(out.id)
            &&& leaving_for(sessions[other], now) <= leaving_for(out, now)
        }),
{
    let group = Group::LeavingBut(owner);
    let places = positions(sessions, group);
    lemma_positions(sessions, group);
    assert(group.has(sessions[other]));
    assert(places.contains(other as usize));
    let j = choose|j: int| 0 <= j < places.len() && places[j] == other as usize;
    assert(turnover_positions(sessions, owner) == places);
    assert(leaving_times(sessions, places, now)[j] <= leaving_times(sessions, places, now)[k]);
}

// ---------------------------------------------------------------------------
// Choosing sessions to retire and to rotate
// ---------------------------------------------------------------------------
/// A planned exchange of one session for a new one.
#[derive(Debug, Clone, Copy, PartialEq, Eq, Structural)]
pub struct ScheduledSessionRotation {
    pub candidate_session_id: u64,
    pub replacement_session_id: Option<u64>,
}

/// How far a planned exchange has come.
#[derive(Debug, Clone, Copy, PartialEq, Eq, Structural)]
pub enum ScheduledRotationProgress {
    Waiting,
    Activated,
    Cancelled,
}

/// An idle serving session that does not hold the remote forwards.
pub open spec fn is_idle_elastic(session: ManagedSession, owner: Option<u64>) -> bool {
    session.serves() && owner != Some(session.id) && session.in_flight == 0
}

/// `choice` is the newest idle session, where more than `minimum` sessions serve.
pub open spec fn is_newest_idle(
    sessions: Seq<ManagedSession>,
    owner: Option<u64>,
    minimum: usize,
    choice: Option<u64>,
) -> bool {
    match choice {
        Some(id) => {
            &&& serving_count(sessions) > minimum
            &&& exists|i: int|
                0 <= i < sessions.len() && is_idle_elastic(#[trigger] sessions[i], owner)
                    && sessions[i].id == id
            &&& forall|i: int|
                0 <= i < sessions.len() && is_idle_elastic(#[trigger] sessions[i], owner)
                    ==> sessions[i].id <= id
        },
        None => serving_count(sessions) <= minimum || forall|i: int|
            0 <= i < sessions.len() ==> !is_idle_elastic(#[trigger] sessions[i], owner),
    }
}

/// `choice` is the oldest serving session.
pub open spec fn is_oldest_serving(sessions: Seq<ManagedSession>, choice: Option<u64>) -> bool {
    match choice {
        Some(id) => {
            &&& exists|i: int|
                0 <= i < sessions.len() && (#[trigger] sessions[i]).serves() && sessions[i].id
                    == id
            &&& forall|i: int|
                0 <= i < sessions.len() && (#[trigger] sessions[i]).serves() ==> id
                    <= sessions[i].id
        },
        None => forall|i: int| 0 <= i < sessions.len() ==> !(#[trigger] sessions[i]).serves(),
    }
}

/// How far the exchange has come: the new session must serve before the old one leaves.
pub open spec fn rotation_progress(
    sessions: Seq<ManagedSession>,
    rotation: ScheduledSessionRotation,
) -> ScheduledRotationProgress {
    match rotation.replacement_session_id {
        None => ScheduledRotationProgress::Waiting,
        Some(replacement) => if find_session(sessions, rotation.candidate_session_id) is None {
            ScheduledRotationProgress::Cancelled
        } else if find_session(sessions, replacement) matches Some(s) && s.serves() {
            ScheduledRotationProgress::Activated
        } else {
            ScheduledRotationProgress::Waiting
        },
    }
}

impl SessionPool {
    /// The newest idle session beyond `minimum_sessions` serving ones.
    pub fn newest_idle_elastic_session_id(&self, minimum_sessions: usize) -> (r: Option<u64>)
        ensures
            is_newest_idle(self.sessions@, self.remote_owner, minimum_sessions, r),
    {
        let mut candidate: Option<u64> = None;
        for i in 0..self.sessions.len()
            invariant
                (match candidate {
                    Some(id) => {
                        &&& exists|j: int|
                            0 <= j < i && is_idle_elastic(
                                #[trigger] self.sessions@[j],
                                self.remote_owner,
                            ) && self.sessions@[j].id == id
                        &&& forall|j: int|
                            0 <= j < i && is_idle_elastic(
                                #[trigger] self.sessions@[j],
                                self.remote_owner,
                            ) ==> self.sessions@[j].id <= id
                    },
                    None => forall|j: int|
                        0 <= j < i ==> !is_idle_elastic(
                            #[trigger] self.sessions@[j],
                            self.remote_owner,
                        ),
                }),
        {
            let session = &self.sessions[i];
            if session.is_serving() && self.remote_owner != Some(session.id) && session.in_flight
                == 0 {
                assert(is_idle_elastic(self.sessions@[i as int], self.remote_owner));
                candidate = match candidate {
                    Some(current) => if session.id > current {
                        Some(session.id)
                    } else {
                        Some(current)
                    },
                    None => Some(session.id),
                };
            }
        }
        if self.count_serving() > minimum_sessions {
            candidate
        } else {
            None
        }
    }

    /// The oldest serving session.
    pub fn oldest_healthy_session_id(&self) -> (r: Option<u64>)
        ensures
            is_oldest_serving(self.sessions@, r),
    {
        let mut candidate: Option<u64> = None;
        for i in 0..self.sessions.len()
            invariant
                (match candidate {
                    Some(id) => {
                        &&& exists|j: int|
                            0 <= j < i && (#[trigger] self.sessions@[j]).serves()
                                && self.sessions@[j].id == id
                        &&& forall|j: int|
                            0 <= j < i && (#[trigger] self.sessions@[j]).serves() ==> id
                                <= self.sessions@[j].id
                    },
                    None => forall|j: int|
                        0 <= j < i ==> !(#[trigger] self.sessions@[j]).serves(),
                }),
        {
            let session = &self.sessions[i];
            if session.is_serving() {
                assert(self.sessions@[i as int].serves());
                candidate = match candidate {
                    Some(oldest) => if session.id < oldest {
                        Some(session.id)
                    } else {
                        Some(oldest)
                    },
                    None => Some(session.id),
                };
            }
        }
        candidate
    }

    /// Moves a planned exchange on: once the new session serves, the old one is to leave.
    pub fn advance_scheduled_session_rotation(
        &mut self,
        rotation: ScheduledSessionRotation,
        now: u128,
    ) -> (r: ScheduledRotationProgress)
        ensures
            r == rotation_progress(old(self).sessions@, rotation),
            final(self).remote_owner == old(self).remote_owner,
            final(self).sessions@ == if r == ScheduledRotationProgress::Activated {
                with_session(
                    old(self).sessions@,
                    rotation.candidate_session_id,
                    |s: ManagedSession| retired(s, now),
                )
            } else {
                old(self).sessions@
            },
    {
        let replacement_id: u64 = match rotation.replacement_session_id {
            Some(id) => id,
            None => return ScheduledRotationProgress::Waiting,
        };
        proof {
            lemma_session_index(self.sessions@, rotation.candidate_session_id);
            lemma_session_index(self.sessions@, replacement_id);
        }
        if self.position(rotation.candidate_session_id).is_none() {
            return ScheduledRotationProgress::Cancelled;
        }
        match self.position(replacement_id) {
            Some(i) => {
                if !self.sessions[i].is_serving() {
                    return ScheduledRotationProgress::Waiting;
                }
            },
            None => return ScheduledRotationProgress::Waiting,
        }
        self.request_session_retirement(rotation.candidate_session_id, now);
        ScheduledRotationProgress::Activated
    }
}

} // verus!
