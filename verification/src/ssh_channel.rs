//! The opening of a channel: the sessions of a host are tried one after the other until one of
//! them opens it.
use crate::ssh_pool::{error_noted, find_session, is_channel_order, lemma_session_index,
    session_index, with_channel, with_session, without_channel, ManagedSession, SessionPool};
use crate::text::{concat2, concat3, decimal, text_option, wide_decimal_text};
use vstd::prelude::*;

verus! {

/// The search for a session that opens a channel.
#[derive(Debug)]
pub struct ChannelSearch {
    /// The sessions to try, the best first.
    pub candidates: Vec<u64>,
    /// The first one that was not tried yet.
    pub next: usize,
    /// What the last one that was tried said.
    pub last_error: Option<String>,
}

/// Why a session did not open a channel.
#[derive(Debug)]
pub enum ChannelFailure {
    /// An error.
    Refused(String),
    /// No answer within so many milliseconds.
    TimedOut(u128),
}

/// What is said of a channel that was not opened.
pub open spec fn channel_failure_text(failure: ChannelFailure) -> Seq<char> {
    match failure {
        ChannelFailure::Refused(error) => "failed to open SSH channel: "@ + error@,
        ChannelFailure::TimedOut(milliseconds) => "timed out opening SSH channel after "@
            + decimal(milliseconds as nat) + " ms"@,
    }
}

impl ChannelFailure {
    /// What is said of the channel.
    pub fn text(&self) -> (r: String)
        ensures
            r@ == channel_failure_text(*self),
    {
        match self {
            ChannelFailure::Refused(error) => {
                concat2("failed to open SSH channel: ", error.as_str())
            },
            ChannelFailure::TimedOut(milliseconds) => concat3(
                "timed out opening SSH channel after ",
                wide_decimal_text(*milliseconds).as_str(),
                " ms",
            ),
        }
    }
}

/// Whether a channel can be asked of a session: it is connected and has one left.
pub open spec fn can_open(session: Option<ManagedSession>, maximum: usize) -> bool {
    session matches Some(s) && s.in_flight < maximum && s.connected
}

/// The first place from `from` on of a session that a channel can be asked of; the number of
/// candidates where there is none.
pub open spec fn next_open(
    sessions: Seq<ManagedSession>,
    candidates: Seq<u64>,
    from: int,
    maximum: usize,
) -> int
    decreases candidates.len() - from,
{
    if from >= candidates.len() {
        candidates.len() as int
    } else if can_open(find_session(sessions, candidates[from]), maximum) {
        from
    } else {
        next_open(sessions, candidates, from + 1, maximum)
    }
}

/// An error at the end of a sentence.
pub open spec fn error_tail(error: Option<Seq<char>>) -> Seq<char> {
    match error {
        Some(text) => ": "@ + text,
        None => ""@,
    }
}

/// A sentence about a host, with the last error at its end.
pub fn host_failure(host: &str, sentence: &str, last_error: &Option<String>) -> (r: String)
    ensures
        r@ == "SSH host "@ + host@ + sentence@ + error_tail(text_option(*last_error)),
{
    let front = concat3("SSH host ", host, sentence);
    match last_error {
        Some(error) => concat3(front.as_str(), ": ", error.as_str()),
        None => concat2(front.as_str(), ""),
    }
}

impl ChannelSearch {
    /// A search among the sessions that take channels.
    pub fn start(pool: &SessionPool, maximum: usize) -> (r: ChannelSearch)
        ensures
            is_channel_order(pool.sessions@, maximum, r.candidates@),
            r.next == 0,
            r.last_error is None,
    {
        ChannelSearch { candidates: pool.channel_candidates(maximum), next: 0, last_error: None }
    }

    /// Takes a channel of the next session that has one; gives that session.
    pub fn try_next(&mut self, pool: &mut SessionPool, maximum: usize) -> (r: Option<u64>)
        ensures
            final(self).candidates@ == old(self).candidates@,
            final(self).last_error == old(self).last_error,
            final(pool).remote_owner == old(pool).remote_owner,
            ({
                let candidates = old(self).candidates@;
                let k = next_open(
                    old(pool).sessions@,
                    candidates,
                    old(self).next as int,
                    maximum,
                );
                if k < candidates.len() {
                    &&& r == Some(candidates[k])
                    &&& final(self).next == k + 1
                    &&& final(pool).sessions@ == with_session(
                        old(pool).sessions@,
                        candidates[k],
                        |s: ManagedSession| with_channel(s),
                    )
                } else {
                    &&& r is None
                    &&& final(self).next >= candidates.len()
                    &&& final(pool).sessions@ == old(pool).sessions@
                }
            }),
    {
        while self.next < self.candidates.len()
            invariant
                self.candidates@ == old(self).candidates@,
                self.last_error == old(self).last_error,
                pool.remote_owner == old(pool).remote_owner,
                pool.sessions@ == old(pool).sessions@,
                next_open(
                    old(pool).sessions@,
                    old(self).candidates@,
                    old(self).next as int,
                    maximum,
                ) == next_open(
                    old(pool).sessions@,
                    old(self).candidates@,
                    self.next as int,
                    maximum,
                ),
            decreases self.candidates@.len() - self.next,
        {
            let id: u64 = self.candidates[self.next];
            self.next = self.next + 1;
            proof {
                lemma_session_index(pool.sessions@, id);
            }
            match pool.position(id) {
                Some(i) => {
                    if pool.sessions[i].connected && pool.reserve_in_flight(id, maximum) {
                        return Some(id);
                    }
                },
                None => {},
            }
        }
        None
    }

    /// Takes in that a session did not open the channel that was taken of it.
    pub fn on_failure(&mut self, pool: &mut SessionPool, id: u64, failure: &ChannelFailure)
        requires
            find_session(old(pool).sessions@, id) matches Some(s) ==> s.in_flight > 0,
        ensures
            final(self).candidates@ == old(self).candidates@,
            final(self).next == old(self).next,
            text_option(final(self).last_error) == Some(channel_failure_text(*failure)),
            final(pool).remote_owner == old(pool).remote_owner,
            error_noted(
                with_session(
                    old(pool).sessions@,
                    id,
                    |s: ManagedSession| without_channel(s),
                ),
                final(pool).sessions@,
                id,
                channel_failure_text(*failure),
            ),
    {
        let error = failure.text();
        pool.release_in_flight(id);
        pool.note_error(id, error.as_str());
        self.last_error = Some(error);
    }

    /// What is said of a host none of whose sessions opened a channel.
    pub fn failure_text(&self, host: &str) -> (r: String)
        ensures
            r@ == "SSH host "@ + host@ + " has no available session"@ + error_tail(
                text_option(self.last_error),
            ),
    {
        host_failure(host, " has no available session", &self.last_error)
    }
}

/// A search moves on with every session that it tries, and asks a channel only of a session
/// that is connected and has one left.
pub proof fn search_moves_on(
    sessions: Seq<ManagedSession>,
    candidates: Seq<u64>,
    from: int,
    maximum: usize,
)
    requires
        0 <= from <= candidates.len(),
    ensures
        ({
            let k = next_open(sessions, candidates, from, maximum);
            &&& from <= k <= candidates.len()
            &&& k < candidates.len() ==> can_open(find_session(sessions, candidates[k]), maximum)
            &&& forall|j: int|
                from <= j < k ==> !can_open(
                    find_session(sessions, #[trigger] candidates[j]),
                    maximum,
                )
        }),
    decreases candidates.len() - from,
{
    if from < candidates.len() && !can_open(find_session(sessions, candidates[from]), maximum) {
        search_moves_on(sessions, candidates, from + 1, maximum);
    }
}

/// A session that did not open the channel taken of it has as many channels open as before
/// the search tried it.
pub proof fn failed_attempts_leave_no_channel(
    sessions: Seq<ManagedSession>,
    after: Seq<ManagedSession>,
    id: u64,
    maximum: usize,
    error: Seq<char>,
)
    requires
        can_open(find_session(sessions, id), maximum),
        error_noted(
            with_session(
                with_session(sessions, id, |s: ManagedSession| with_channel(s)),
                id,
                |s: ManagedSession| without_channel(s),
            ),
            after,
            id,
            error,
        ),
    ensures
        after.len() == sessions.len(),
        forall|j: int|
            0 <= j < sessions.len() ==> (#[trigger] after[j]).in_flight == sessions[j].in_flight
                && after[j].id == sessions[j].id,
{
    crate::ssh_pool::release_undoes_reserve(sessions, id, maximum);
    lemma_session_index(sessions, id);
    let i = session_index(sessions, id);
    assert forall|j: int| 0 <= j < sessions.len() implies (#[trigger] after[j]).in_flight
        == sessions[j].in_flight && after[j].id == sessions[j].id by {
        if j == i {
            assert(after[i].in_flight == sessions[i].in_flight);
        }
    }
}

} // verus!
