//! The registration of remote forwards with a session, and their handover from one session to
//! another.
use crate::address::{socket_text, SocketAddress};
use crate::config::{RemoteForward, SshHostConfig, SshRemoteForwardConfig};
use crate::ssh_pool::{current_owner, find_session, lemma_session_index, ManagedSession,
    OwnerDecision, SessionPool};
use crate::ssh_remote::{forward_tunnel, listen_of, remote_forward_tunnel_id};
use crate::status::TunnelRuntimeStatus;
use crate::text::{concat2, concat4, decimal, decimal_text, text_option};
use vstd::prelude::*;

verus! {

// ---------------------------------------------------------------------------
// The state of the tunnels
// ---------------------------------------------------------------------------
/// What becomes of a tunnel.
#[derive(Debug)]
pub struct TunnelUpdate {
    pub tunnel_id: String,
    pub status: TunnelRuntimeStatus,
    /// The session that holds the tunnel.
    pub owner_session: Option<u64>,
    pub error: Option<String>,
}

/// What becomes of a tunnel, with texts for strings.
pub ghost struct Update {
    pub tunnel_id: Seq<char>,
    pub status: TunnelRuntimeStatus,
    pub owner_session: Option<u64>,
    pub error: Option<Seq<char>>,
}

impl TunnelUpdate {
    /// What becomes of the tunnel, with texts for strings.
    pub open spec fn update(self) -> Update {
        Update {
            tunnel_id: self.tunnel_id@,
            status: self.status,
            owner_session: self.owner_session,
            error: text_option(self.error),
        }
    }
}

/// A tunnel that no session holds for now.
pub open spec fn starting_update(host: Seq<char>, forward: RemoteForward) -> Update {
    Update {
        tunnel_id: forward_tunnel(host, forward),
        status: TunnelRuntimeStatus::Starting,
        owner_session: None,
        error: None,
    }
}

/// A tunnel that failed.
pub open spec fn error_update(
    host: Seq<char>,
    forward: RemoteForward,
    error: Seq<char>,
) -> Update {
    Update {
        tunnel_id: forward_tunnel(host, forward),
        status: TunnelRuntimeStatus::Error,
        owner_session: None,
        error: Some(error),
    }
}

/// A forward that was cancelled waits for its next session.
pub fn cancelled_update(host: &str, forward: &SshRemoteForwardConfig) -> (r: TunnelUpdate)
    ensures
        r.update() == starting_update(host@, forward.forward()),
{
    TunnelUpdate {
        tunnel_id: remote_forward_tunnel_id(host, forward),
        status: TunnelRuntimeStatus::Starting,
        owner_session: None,
        error: None,
    }
}

/// Every remote forward of a host waits for a session.
pub fn mark_remote_tunnels_starting(upstream: &SshHostConfig) -> (r: Vec<TunnelUpdate>)
    ensures
        r@.len() == upstream.remote_forwards@.len(),
        forall|i: int|
            0 <= i < r@.len() ==> (#[trigger] r@[i]).update() == starting_update(
                upstream.name@,
                upstream.remote_forwards@[i].forward(),
            ),
{
    let mut r: Vec<TunnelUpdate> = Vec::new();
    for i in 0..upstream.remote_forwards.len()
        invariant
            r@.len() == i,
            forall|j: int|
                0 <= j < i ==> (#[trigger] r@[j]).update() == starting_update(
                    upstream.name@,
                    upstream.remote_forwards@[j].forward(),
                ),
    {
        r.push(cancelled_update(upstream.name.as_str(), &upstream.remote_forwards[i]));
    }
    r
}

/// What is said of a forward that was not cancelled in time.
pub fn cancel_timeout_text(listen: SocketAddress) -> (r: String)
    ensures
        r@ == "timed out cancelling SSH remote forward at "@ + socket_text(listen),
{
    concat2("timed out cancelling SSH remote forward at ", listen.text().as_str())
}

// ---------------------------------------------------------------------------
// Registration
// ---------------------------------------------------------------------------
/// What the host said to a request.
#[derive(Debug)]
pub enum RemoteReply {
    Done,
    Refused(String),
    TimedOut,
}

/// What to do about the forwards that are taken from a session.
#[derive(Debug)]
pub enum CancelStep {
    /// Cancel the forward at this place.
    Cancel(usize),
    /// Nothing: they are cancelled.
    Done,
    /// Give up.
    Failed(String),
}

/// What to do about the forwards that are taken from a session, with texts for strings.
pub ghost enum Cancelling {
    Cancel(int),
    Done,
    Failed(Seq<char>),
}

impl CancelStep {
    /// The step, with texts for strings.
    pub open spec fn step(self) -> Cancelling {
        match self {
            CancelStep::Cancel(place) => Cancelling::Cancel(place as int),
            CancelStep::Done => Cancelling::Done,
            CancelStep::Failed(error) => Cancelling::Failed(error@),
        }
    }
}

/// The forward at `place`, where there is one.
pub open spec fn cancel_from(count: int, place: int) -> Cancelling {
    if place < count {
        Cancelling::Cancel(place)
    } else {
        Cancelling::Done
    }
}

/// What to do after the host answered the request to cancel the forward at `place`: the first
/// one that fails ends it.
pub open spec fn cancel_after(
    upstream: SshHostConfig,
    place: int,
    reply: RemoteReply,
) -> Cancelling {
    match reply {
        RemoteReply::Done => cancel_from(upstream.remote_forwards@.len() as int, place + 1),
        RemoteReply::Refused(error) => Cancelling::Failed(error@),
        RemoteReply::TimedOut => Cancelling::Failed(
            "timed out cancelling SSH remote forward at "@ + socket_text(
                upstream.remote_forwards@[place].listens_at(),
            ),
        ),
    }
}

/// Cancelling goes on to the next forward only where the last one was cancelled.
pub proof fn cancelling_needs_every_answer(upstream: SshHostConfig, place: int, reply: RemoteReply)
    requires
        0 <= place < upstream.remote_forwards@.len(),
    ensures
        (cancel_after(upstream, place, reply) is Failed) == !(reply is Done),
        cancel_after(upstream, place, reply) matches Cancelling::Cancel(next) ==> next == place + 1
            && next < upstream.remote_forwards@.len(),
{
}

/// The first forward to cancel.
pub fn first_cancel_step(upstream: &SshHostConfig) -> (r: CancelStep)
    ensures
        r.step() == cancel_from(upstream.remote_forwards@.len() as int, 0),
{
    if upstream.remote_forwards.len() > 0 {
        CancelStep::Cancel(0)
    } else {
        CancelStep::Done
    }
}

/// What to do after the host answered the request to cancel the forward at `place`.
pub fn cancel_step(upstream: &SshHostConfig, place: usize, reply: &RemoteReply) -> (r: CancelStep)
    requires
        place < upstream.remote_forwards@.len(),
    ensures
        r.step() == cancel_after(*upstream, place as int, *reply),
{
    match reply {
        RemoteReply::Done => if place < upstream.remote_forwards.len() - 1 {
            CancelStep::Cancel(place + 1)
        } else {
            CancelStep::Done
        },
        RemoteReply::Refused(error) => CancelStep::Failed(error.as_str().to_owned()),
        RemoteReply::TimedOut => CancelStep::Failed(
            cancel_timeout_text(upstream.remote_forwards[place].remote_forward_listen()),
        ),
    }
}

/// The registration of the forwards of a host with a session, one after the other. Where one
/// of them fails, those before it are rolled back.
#[derive(Debug)]
pub struct RemoteRegistration {
    /// How many forwards were registered.
    pub registered: usize,
    /// What was said of the one that failed.
    pub failure: Option<String>,
    /// Whether the one that failed is still to be cancelled: the host may have registered it.
    pub cancel_pending: bool,
    /// How many were rolled back.
    pub rolled_back: usize,
}

/// What to do next.
#[derive(Debug, Clone, Copy, PartialEq, Eq, Structural)]
pub enum RegistrationAction {
    /// Register the forward at this place.
    Register(usize),
    /// Cancel the forward at this place; whatever the host says is taken.
    Cancel(usize),
    /// Roll back the forward at this place.
    RollBack(usize),
    /// Nothing: every forward is registered.
    Done,
    /// Nothing: one forward failed, and those before it were rolled back.
    Failed,
}

/// What is said of a forward that was not registered.
pub open spec fn registration_error(listen: SocketAddress, reply: RemoteReply) -> Option<
    Seq<char>,
> {
    match reply {
        RemoteReply::Done => None,
        RemoteReply::Refused(error) => Some(
            "failed to register SSH remote forward at "@ + socket_text(listen) + ": "@ + error@,
        ),
        RemoteReply::TimedOut => Some(
            "timed out registering SSH remote forward at "@ + socket_text(listen),
        ),
    }
}

/// What is said of a forward that was rolled back because of `cause`.
pub open spec fn rollback_text(
    listen: SocketAddress,
    reply: RemoteReply,
    cause: Seq<char>,
) -> Seq<char> {
    match reply {
        RemoteReply::Done => "remote forward at "@ + socket_text(listen)
            + " was rolled back because another listener failed: "@ + cause,
        RemoteReply::Refused(error) => "remote forward rollback at "@ + socket_text(listen)
            + " failed after another listener failed: "@ + error@,
        RemoteReply::TimedOut => "remote forward rollback at "@ + socket_text(listen)
            + " timed out after another listener failed: "@ + cause,
    }
}

impl RemoteRegistration {
    /// A registration of `count` forwards, at any point of it.
    pub open spec fn wf(self, count: int) -> bool {
        &&& self.registered <= count
        &&& self.rolled_back <= self.registered
        &&& self.failure is Some ==> self.registered < count
        &&& self.failure is None ==> self.rolled_back == 0 && !self.cancel_pending
    }

    /// What to do next.
    pub open spec fn next_action(self, count: int) -> RegistrationAction {
        if self.failure is None {
            if self.registered < count {
                RegistrationAction::Register(self.registered)
            } else {
                RegistrationAction::Done
            }
        } else if self.cancel_pending {
            RegistrationAction::Cancel(self.registered)
        } else if self.rolled_back < self.registered {
            RegistrationAction::RollBack(self.rolled_back)
        } else {
            RegistrationAction::Failed
        }
    }

    /// How many steps are left at most.
    pub open spec fn steps_left(self, count: int) -> int {
        if self.failure is None {
            if self.registered < count {
                2 * count + 1 - self.registered
            } else {
                0
            }
        } else {
            self.registered - self.rolled_back + if self.cancel_pending {
                1int
            } else {
                0
            }
        }
    }

    /// A registration before its first step.
    pub fn start() -> (r: RemoteRegistration)
        ensures
            forall|count: int| 0 <= count ==> #[trigger] r.wf(count),
            r.registered == 0,
            r.failure is None,
    {
        RemoteRegistration { registered: 0, failure: None, cancel_pending: false, rolled_back: 0 }
    }

    /// What to do next about `count` forwards.
    pub fn action(&self, count: usize) -> (r: RegistrationAction)
        ensures
            r == self.next_action(count as int),
    {
        if self.failure.is_none() {
            if self.registered < count {
                RegistrationAction::Register(self.registered)
            } else {
                RegistrationAction::Done
            }
        } else if self.cancel_pending {
            RegistrationAction::Cancel(self.registered)
        } else if self.rolled_back < self.registered {
            RegistrationAction::RollBack(self.rolled_back)
        } else {
            RegistrationAction::Failed
        }
    }

    /// Takes in what the host said to the registration of the next forward with the session
    /// `owner`.
    pub fn on_registered(&mut self, upstream: &SshHostConfig, owner: u64, reply: &RemoteReply) -> (r:
        TunnelUpdate)
        requires
            old(self).wf(upstream.remote_forwards@.len() as int),
            old(self).next_action(upstream.remote_forwards@.len() as int) is Register,
        ensures
            final(self).wf(upstream.remote_forwards@.len() as int),
            final(self).steps_left(upstream.remote_forwards@.len() as int) < old(self).steps_left(
                upstream.remote_forwards@.len() as int,
            ),
            final(self).rolled_back == 0,
            ({
                let forward = upstream.remote_forwards@[old(self).registered as int].forward();
                let error = registration_error(listen_of(forward), *reply);
                &&& text_option(final(self).failure) == error
                &&& final(self).registered == old(self).registered + if error is None {
                    1int
                } else {
                    0
                }
                &&& final(self).cancel_pending == (reply is TimedOut)
                &&& r.update() == match error {
                    None => Update {
                        tunnel_id: forward_tunnel(upstream.name@, forward),
                        status: TunnelRuntimeStatus::Listening,
                        owner_session: Some(owner),
                        error: None,
                    },
                    Some(error) => error_update(upstream.name@, forward, error),
                }
            }),
    {
        let forward = &upstream.remote_forwards[self.registered];
        let listen = forward.remote_forward_listen();
        let tunnel_id = remote_forward_tunnel_id(upstream.name.as_str(), forward);
        let error = match reply {
            RemoteReply::Done => {
                assert(self.registered < upstream.remote_forwards.len());
                self.registered = self.registered + 1;
                return TunnelUpdate {
                    tunnel_id,
                    status: TunnelRuntimeStatus::Listening,
                    owner_session: Some(owner),
                    error: None,
                };
            },
            RemoteReply::Refused(error) => concat4(
                "failed to register SSH remote forward at ",
                listen.text().as_str(),
                ": ",
                error.as_str(),
            ),
            RemoteReply::TimedOut => {
                self.cancel_pending = true;
                concat2(
                    "timed out registering SSH remote forward at ",
                    listen.text().as_str(),
                )
            },
        };
        self.failure = Some(error.as_str().to_owned());
        TunnelUpdate {
            tunnel_id,
            status: TunnelRuntimeStatus::Error,
            owner_session: None,
            error: Some(error),
        }
    }

    /// Takes in that the forward that failed was cancelled, or could not be.
    pub fn on_cancelled(&mut self)
        ensures
            *final(self) == (RemoteRegistration { cancel_pending: false, ..*old(self) }),
            forall|count: int|
                old(self).cancel_pending && old(self).wf(count) ==> #[trigger] final(self).wf(count)
                    && final(self).steps_left(count) < old(self).steps_left(count),
    {
        self.cancel_pending = false;
    }

    /// Takes in what the host said to the rollback of the next forward.
    pub fn on_rolled_back(&mut self, upstream: &SshHostConfig, reply: &RemoteReply) -> (r:
        TunnelUpdate)
        requires
            old(self).wf(upstream.remote_forwards@.len() as int),
            old(self).next_action(upstream.remote_forwards@.len() as int) is RollBack,
        ensures
            final(self).wf(upstream.remote_forwards@.len() as int),
            final(self).steps_left(upstream.remote_forwards@.len() as int) < old(self).steps_left(
                upstream.remote_forwards@.len() as int,
            ),
            *final(self) == (RemoteRegistration {
                rolled_back: (old(self).rolled_back + 1) as usize,
                ..*old(self)
            }),
            ({
                let forward = upstream.remote_forwards@[old(self).rolled_back as int].forward();
                r.update() == error_update(
                    upstream.name@,
                    forward,
                    rollback_text(listen_of(forward), *reply, text_option(old(self).failure)->0),
                )
            }),
    {
        let forward = &upstream.remote_forwards[self.rolled_back];
        let listen = forward.remote_forward_listen();
        let cause: &str = match &self.failure {
            Some(cause) => cause.as_str(),
            None => "",
        };
        let error = match reply {
            RemoteReply::Done => concat4(
                "remote forward at ",
                listen.text().as_str(),
                " was rolled back because another listener failed: ",
                cause,
            ),
            RemoteReply::Refused(error) => concat4(
                "remote forward rollback at ",
                listen.text().as_str(),
                " failed after another listener failed: ",
                error.as_str(),
            ),
            RemoteReply::TimedOut => concat4(
                "remote forward rollback at ",
                listen.text().as_str(),
                " timed out after another listener failed: ",
                cause,
            ),
        };
        self.rolled_back = self.rolled_back + 1;
        TunnelUpdate {
            tunnel_id: remote_forward_tunnel_id(upstream.name.as_str(), forward),
            status: TunnelRuntimeStatus::Error,
            owner_session: None,
            error: Some(error),
        }
    }
}

/// A registration ends with every forward registered, or with every forward that was
/// registered rolled back.
pub proof fn registration_is_all_or_nothing(registration: RemoteRegistration, count: int)
    requires
        registration.wf(count),
        registration.steps_left(count) <= 0,
    ensures
        match registration.next_action(count) {
            RegistrationAction::Done => registration.registered == count
                && registration.failure is None,
            RegistrationAction::Failed => registration.rolled_back == registration.registered
                && registration.failure is Some,
            _ => false,
        },
{
}

// ---------------------------------------------------------------------------
// Handover
// ---------------------------------------------------------------------------
/// What to do next about the remote forwards of a host.
#[derive(Debug)]
pub enum HandoverStep {
    /// Nothing: there are none, or a session serves them.
    Settled,
    /// Cancel them with this session.
    Cancel(u64),
    /// Register them with this session.
    Register(u64),
    /// Nothing for now: they could not be handed over.
    Failed(String),
    /// Disconnect a session that did not give them up; they could not be handed over.
    Disconnect { session: u64, reason: String, error: String },
}

/// What to do next about the remote forwards of a host, with texts for strings.
pub ghost enum Step {
    Settled,
    Cancel(u64),
    Register(u64),
    Failed(Seq<char>),
    Disconnect { session: u64, reason: Seq<char>, error: Seq<char> },
}

impl HandoverStep {
    /// The step, with texts for strings.
    pub open spec fn step(self) -> Step {
        match self {
            HandoverStep::Settled => Step::Settled,
            HandoverStep::Cancel(id) => Step::Cancel(id),
            HandoverStep::Register(id) => Step::Register(id),
            HandoverStep::Failed(error) => Step::Failed(error@),
            HandoverStep::Disconnect { session, reason, error } => Step::Disconnect {
                session,
                reason: reason@,
                error: error@,
            },
        }
    }
}

/// Whether there is a connection to the session `id`.
pub open spec fn is_connected(sessions: Seq<ManagedSession>, id: u64) -> bool {
    find_session(sessions, id) matches Some(s) && s.connected
}

/// The step after the forwards were taken from their holder.
pub open spec fn registering_step(sessions: Seq<ManagedSession>, to: u64) -> Step {
    if is_connected(sessions, to) {
        Step::Register(to)
    } else {
        Step::Failed("replacement SSH session closed before remote forward registration"@)
    }
}

/// The first step of a handover, and who holds the forwards after it.
pub open spec fn first_step(
    sessions: Seq<ManagedSession>,
    owner: Option<u64>,
    decision: OwnerDecision,
) -> (Step, Option<u64>) {
    match decision {
        OwnerDecision::Settled => (Step::Settled, owner),
        OwnerDecision::NoStandby => (
            Step::Failed("no healthy standby SSH session is ready for remote forwarding"@),
            owner,
        ),
        OwnerDecision::Release { owner: id } => if is_connected(sessions, id) {
            (Step::Cancel(id), owner)
        } else {
            (
                Step::Failed(
                    "remote forwards released while waiting for a replacement SSH session"@,
                ),
                None,
            )
        },
        OwnerDecision::Handover { from: Some(id), to } => if is_connected(sessions, id) {
            (Step::Cancel(id), owner)
        } else {
            (registering_step(sessions, to), None)
        },
        OwnerDecision::Handover { from: None, to } => (registering_step(sessions, to), owner),
    }
}

/// The step after the holder was asked to give the forwards up, and who holds them after it.
pub open spec fn step_after_cancel(
    sessions: Seq<ManagedSession>,
    owner: Option<u64>,
    decision: OwnerDecision,
    error: Option<Seq<char>>,
) -> (Step, Option<u64>) {
    match (decision, error) {
        (OwnerDecision::Release { .. }, None) => (
            Step::Failed("remote forwards released while waiting for a replacement SSH session"@),
            None,
        ),
        (OwnerDecision::Handover { from: Some(_), to }, None) => (
            registering_step(sessions, to),
            None,
        ),
        (OwnerDecision::Handover { from: Some(id), .. }, Some(error)) => (
            Step::Disconnect {
                session: id,
                reason: "remote forward handover: "@ + error,
                error: "failed to release remote forwards from session "@ + decimal(id as nat)
                    + ": "@ + error,
            },
            None,
        ),
        (_, Some(error)) => (Step::Failed(error), owner),
        (_, None) => (Step::Settled, owner),
    }
}

impl SessionPool {
    fn is_session_connected(&self, id: u64) -> (r: bool)
        ensures
            r == is_connected(self.sessions@, id),
    {
        proof {
            lemma_session_index(self.sessions@, id);
        }
        match self.position(id) {
            Some(i) => self.sessions[i].connected,
            None => false,
        }
    }

    fn next_registration(&self, to: u64) -> (r: HandoverStep)
        ensures
            r.step() == registering_step(self.sessions@, to),
    {
        if self.is_session_connected(to) {
            HandoverStep::Register(to)
        } else {
            HandoverStep::Failed(
                "replacement SSH session closed before remote forward registration".to_owned(),
            )
        }
    }

    /// Begins what `decision` says about the remote forwards.
    pub fn begin_handover(&mut self, decision: OwnerDecision) -> (r: HandoverStep)
        ensures
            final(self).sessions@ == old(self).sessions@,
            (r.step(), final(self).remote_owner) == first_step(
                old(self).sessions@,
                old(self).remote_owner,
                decision,
            ),
    {
        match decision {
            OwnerDecision::Settled => HandoverStep::Settled,
            OwnerDecision::NoStandby => HandoverStep::Failed(
                "no healthy standby SSH session is ready for remote forwarding".to_owned(),
            ),
            OwnerDecision::Release { owner } => {
                if self.is_session_connected(owner) {
                    HandoverStep::Cancel(owner)
                } else {
                    self.remote_owner = None;
                    HandoverStep::Failed(
                        "remote forwards released while waiting for a replacement SSH session".to_owned(),
                    )
                }
            },
            OwnerDecision::Handover { from: Some(id), to } => {
                if self.is_session_connected(id) {
                    HandoverStep::Cancel(id)
                } else {
                    self.remote_owner = None;
                    self.next_registration(to)
                }
            },
            OwnerDecision::Handover { from: None, to } => self.next_registration(to),
        }
    }

    /// Takes in that the holder gave the remote forwards up, or the error with which it did
    /// not.
    pub fn on_forwards_cancelled(&mut self, decision: OwnerDecision, error: &Option<String>) -> (r:
        HandoverStep)
        ensures
            final(self).sessions@ == old(self).sessions@,
            (r.step(), final(self).remote_owner) == step_after_cancel(
                old(self).sessions@,
                old(self).remote_owner,
                decision,
                text_option(*error),
            ),
    {
        match (decision, error) {
            (OwnerDecision::Release { .. }, None) => {
                self.remote_owner = None;
                HandoverStep::Failed(
                    "remote forwards released while waiting for a replacement SSH session".to_owned(),
                )
            },
            (OwnerDecision::Handover { from: Some(_), to }, None) => {
                self.remote_owner = None;
                self.next_registration(to)
            },
            (OwnerDecision::Handover { from: Some(id), .. }, Some(error)) => {
                self.remote_owner = None;
                HandoverStep::Disconnect {
                    session: id,
                    reason: concat2("remote forward handover: ", error.as_str()),
                    error: concat4(
                        "failed to release remote forwards from session ",
                        decimal_text(id).as_str(),
                        ": ",
                        error.as_str(),
                    ),
                }
            },
            (_, Some(error)) => HandoverStep::Failed(error.as_str().to_owned()),
            (_, None) => HandoverStep::Settled,
        }
    }

    /// Takes in that the session `to` holds the remote forwards, or the error with which it
    /// does not.
    pub fn on_forwards_registered(&mut self, to: u64, error: &Option<String>) -> (r: HandoverStep)
        ensures
            final(self).sessions@ == old(self).sessions@,
            (r.step(), final(self).remote_owner) == (match text_option(*error) {
                None => (Step::Settled, Some(to)),
                Some(error) => (Step::Failed(error), old(self).remote_owner),
            }),
    {
        match error {
            None => {
                self.remote_owner = Some(to);
                HandoverStep::Settled
            },
            Some(error) => HandoverStep::Failed(error.as_str().to_owned()),
        }
    }
}

/// `decision` is one that the pool takes while `owner` holds the forwards.
pub open spec fn is_decision_about(
    sessions: Seq<ManagedSession>,
    owner: Option<u64>,
    decision: OwnerDecision,
) -> bool {
    decision matches OwnerDecision::Handover { from, .. } ==> from == (match current_owner(
        sessions,
        owner,
    ) {
        Some(s) => Some(s.id),
        None => None,
    })
}

/// Remote forwards are never registered with a session while another one that holds them is
/// still connected: it is asked to give them up first.
pub proof fn handover_releases_before_it_registers(
    sessions: Seq<ManagedSession>,
    owner: Option<u64>,
    decision: OwnerDecision,
)
    requires
        is_decision_about(sessions, owner, decision),
        first_step(sessions, owner, decision).0 is Register,
    ensures
        !(current_owner(sessions, owner) matches Some(s) && s.connected),
{
    if owner is Some {
        lemma_session_index(sessions, owner->0);
    }
}

/// Once a holder gave the remote forwards up, no session holds them until the next one is
/// registered.
pub proof fn released_forwards_have_no_holder(
    sessions: Seq<ManagedSession>,
    owner: Option<u64>,
    decision: OwnerDecision,
)
    requires
        first_step(sessions, owner, decision).0 is Cancel,
    ensures
        step_after_cancel(sessions, owner, decision, None).1 is None,
{
}

// ---------------------------------------------------------------------------
// Laws of registrations and handovers
// ---------------------------------------------------------------------------
/// The forwards are registered one after the other, from the first to the last, as long as none
/// of them fails.
pub proof fn forwards_are_registered_in_order(registration: RemoteRegistration, count: int)
    requires
        registration.wf(count),
        registration.failure is None,
    ensures
        registration.registered < count ==> registration.next_action(count)
            == RegistrationAction::Register(registration.registered),
        registration.registered == count ==> registration.next_action(count)
            == RegistrationAction::Done,
{
}

/// Once one of the forwards failed, nothing more is registered: the one that timed out is
/// cancelled, then those before it are rolled back in their order, and then it is over.
pub proof fn failed_registrations_are_undone(registration: RemoteRegistration, count: int)
    requires
        registration.wf(count),
        registration.failure is Some,
    ensures
        ({
            let next = registration.next_action(count);
            &&& !(next is Register) && !(next is Done)
            &&& registration.cancel_pending ==> next == RegistrationAction::Cancel(
                registration.registered,
            )
            &&& !registration.cancel_pending && registration.rolled_back < registration.registered
                ==> next == RegistrationAction::RollBack(registration.rolled_back)
            &&& next is Failed ==> !registration.cancel_pending && registration.rolled_back
                == registration.registered
        }),
{
}

/// A forward is registered if and only if the host says so; what the host says otherwise, and
/// where the forward was to listen, is told.
pub proof fn registrations_need_an_answer(listen: SocketAddress, reply: RemoteReply)
    ensures
        registration_error(listen, reply) is None <==> reply is Done,
        reply is Refused ==> registration_error(listen, reply) == Some(
            "failed to register SSH remote forward at "@ + socket_text(listen) + ": "@
                + reply->Refused_0@,
        ),
        reply is TimedOut ==> registration_error(listen, reply) == Some(
            "timed out registering SSH remote forward at "@ + socket_text(listen),
        ),
{
}

/// The forwards are cancelled one after the other, from the first to the last, and a session
/// has given them up only when each of them was cancelled.
pub proof fn forwards_are_cancelled_in_order(
    upstream: SshHostConfig,
    place: int,
    reply: RemoteReply,
)
    requires
        0 <= place < upstream.remote_forwards@.len(),
    ensures
        cancel_from(upstream.remote_forwards@.len() as int, 0) == Cancelling::Cancel(0),
        reply is Done && place + 1 < upstream.remote_forwards@.len() ==> cancel_after(
            upstream,
            place,
            reply,
        ) == Cancelling::Cancel(place + 1),
        cancel_after(upstream, place, reply) is Done <==> reply is Done && place + 1
            == upstream.remote_forwards@.len(),
        reply is Refused ==> cancel_after(upstream, place, reply) == Cancelling::Failed(
            reply->Refused_0@,
        ),
{
}

/// A tunnel that waits for a session, or that failed, is held by none; the one that failed has
/// its error with it.
pub proof fn tunnels_without_session_have_no_holder(
    host: Seq<char>,
    forward: RemoteForward,
    error: Seq<char>,
)
    ensures
        starting_update(host, forward).tunnel_id == forward_tunnel(host, forward),
        starting_update(host, forward).status == TunnelRuntimeStatus::Starting,
        starting_update(host, forward).owner_session is None,
        starting_update(host, forward).error is None,
        error_update(host, forward, error).tunnel_id == forward_tunnel(host, forward),
        error_update(host, forward, error).status == TunnelRuntimeStatus::Error,
        error_update(host, forward, error).owner_session is None,
        error_update(host, forward, error).error == Some(error),
{
}

/// The forwards are registered with the session that is to take them over, and only while it is
/// connected; they are cancelled with the session that holds them, and only while it is
/// connected.
pub proof fn handovers_need_connected_sessions(
    sessions: Seq<ManagedSession>,
    owner: Option<u64>,
    decision: OwnerDecision,
    error: Option<Seq<char>>,
)
    ensures
        ({
            let first = first_step(sessions, owner, decision);
            let second = step_after_cancel(sessions, owner, decision, error);
            &&& first.0 is Register || second.0 is Register ==> decision is Handover
            &&& first.0 is Register ==> decision->to == first.0->Register_0 && is_connected(
                sessions,
                decision->to,
            )
            &&& second.0 is Register ==> decision->to == second.0->Register_0 && is_connected(
                sessions,
                decision->to,
            ) && error is None
            &&& first.0 is Cancel ==> is_connected(sessions, first.0->Cancel_0) && first.1 == owner
                && (decision is Release && decision->owner == first.0->Cancel_0 || decision
                is Handover && decision->from == Some(first.0->Cancel_0))
        }),
{
}

/// A session is connected if it is one of the sessions and says so of itself.
pub proof fn sessions_say_whether_they_are_connected(sessions: Seq<ManagedSession>, place: int)
    requires
        0 <= place < sessions.len(),
        forall|i: int, j: int|
            0 <= i < j < sessions.len() ==> (#[trigger] sessions[i]).id != (
            #[trigger] sessions[j]).id,
    ensures
        is_connected(sessions, sessions[place].id) == sessions[place].connected,
{
    lemma_session_index(sessions, sessions[place].id);
}

/// The pool does what was decided: nothing where all is settled, the release of forwards from
/// their holder, their handover from one session to another; each is asked of a connected
/// session, and what a lost session held is free at once.
pub proof fn handovers_follow_the_decision(
    sessions: Seq<ManagedSession>,
    owner: Option<u64>,
    from: u64,
    to: u64,
)
    ensures
        first_step(sessions, owner, OwnerDecision::Settled) == (Step::Settled, owner),
        first_step(sessions, owner, OwnerDecision::NoStandby).0 is Failed,
        first_step(sessions, owner, OwnerDecision::NoStandby).1 == owner,
        is_connected(sessions, from) ==> first_step(
            sessions,
            owner,
            OwnerDecision::Release { owner: from },
        ) == (Step::Cancel(from), owner),
        !is_connected(sessions, from) ==> first_step(
            sessions,
            owner,
            OwnerDecision::Release { owner: from },
        ).1 is None,
        is_connected(sessions, from) ==> first_step(
            sessions,
            owner,
            OwnerDecision::Handover { from: Some(from), to },
        ) == (Step::Cancel(from), owner),
        !is_connected(sessions, from) && is_connected(sessions, to) ==> first_step(
            sessions,
            owner,
            OwnerDecision::Handover { from: Some(from), to },
        ) == (Step::Register(to), None::<u64>),
        is_connected(sessions, to) ==> first_step(
            sessions,
            owner,
            OwnerDecision::Handover { from: None, to },
        ) == (Step::Register(to), owner),
        is_connected(sessions, to) ==> step_after_cancel(
            sessions,
            owner,
            OwnerDecision::Handover { from: Some(from), to },
            None,
        ) == (Step::Register(to), None::<u64>),
        !is_connected(sessions, to) ==> step_after_cancel(
            sessions,
            owner,
            OwnerDecision::Handover { from: Some(from), to },
            None,
        ).0 is Failed,
{
}

/// A session that does not give the forwards up to another one is disconnected, and holds them
/// no more; one that does not release them keeps them.
pub proof fn stubborn_holders_are_disconnected(
    sessions: Seq<ManagedSession>,
    owner: Option<u64>,
    from: u64,
    to: u64,
    error: Seq<char>,
)
    ensures
        ({
            let (step, holder) = step_after_cancel(
                sessions,
                owner,
                OwnerDecision::Handover { from: Some(from), to },
                Some(error),
            );
            step is Disconnect && step->session == from && holder is None
        }),
        step_after_cancel(sessions, owner, OwnerDecision::Release { owner: from }, Some(error))
            == (Step::Failed(error), owner),
{
}

} // verus!
