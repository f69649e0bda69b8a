//! When a changed configuration file replaces the configuration in use.
use crate::text::{concat4, same_text};
use vstd::prelude::*;

verus! {

/// How long to wait for further requests, in nanoseconds.
pub const RELOAD_DEBOUNCE: u128 = 300_000_000;

/// How long a start may take, in nanoseconds.
pub const ENGINE_START_TIMEOUT: u128 = 10_000_000_000;

/// Who asks for a reload.
#[derive(Debug, Clone, Copy, PartialEq, Eq, Structural)]
pub enum ReloadRequest {
    /// The file may have changed.
    Filesystem,
    /// Somebody wants it, changed or not.
    Force,
}

/// Whether some request is a wish of somebody.
pub open spec fn is_forced(requests: Seq<ReloadRequest>) -> bool {
    requests.contains(ReloadRequest::Force)
}

/// Whether one of the requests that came within the time of one another is a wish of
/// somebody.
pub fn debounce_reload_requests(requests: &Vec<ReloadRequest>) -> (force: bool)
    ensures
        force == is_forced(requests@),
{
    for i in 0..requests.len()
        invariant
            forall|j: int| 0 <= j < i ==> requests@[j] != ReloadRequest::Force,
    {
        if requests[i] == ReloadRequest::Force {
            assert(requests@[i as int] == ReloadRequest::Force);
            return true;
        }
    }
    false
}

/// What the file held when it was last looked at.
#[derive(Debug)]
pub struct ReloadState {
    pub last_observed_content: String,
}

/// What to do about the contents of the file.
#[derive(Debug, Clone, Copy, PartialEq, Eq, Structural)]
pub enum ContentDecision {
    /// Nothing: they are the same as before.
    Unchanged,
    /// Read them as a configuration.
    Parse,
}

/// What to do about a configuration.
#[derive(Debug, Clone, Copy, PartialEq, Eq, Structural)]
pub enum ReloadDecision {
    /// Keep the one in use and count an error: the new one cannot be used.
    Invalid,
    /// Keep the one in use: the new one says the same.
    Unchanged,
    /// Replace the one in use.
    Replace,
}

impl ReloadState {
    /// Takes in the contents of the file; those that are to be read are remembered, whatever
    /// comes of them.
    pub fn on_content(&mut self, force: bool, content: &str) -> (r: ContentDecision)
        ensures
            r == (if !force && content@ == old(self).last_observed_content@ {
                ContentDecision::Unchanged
            } else {
                ContentDecision::Parse
            }),
            final(self).last_observed_content@ == (match r {
                ContentDecision::Unchanged => old(self).last_observed_content@,
                ContentDecision::Parse => content@,
            }),
    {
        if !force && same_text(content, self.last_observed_content.as_str()) {
            return ContentDecision::Unchanged;
        }
        self.last_observed_content = content.to_owned();
        ContentDecision::Parse
    }
}

/// Decides about what was read: whether it is a valid configuration, and whether it says the
/// same as the one in use.
#[verifier::allow_in_spec]
pub fn reload_decision(force: bool, valid: bool, same_configuration: bool) -> ReloadDecision
    returns
        (if !valid {
            ReloadDecision::Invalid
        } else if !force && same_configuration {
            ReloadDecision::Unchanged
        } else {
            ReloadDecision::Replace
        }),
{
    if !valid {
        ReloadDecision::Invalid
    } else if !force && same_configuration {
        ReloadDecision::Unchanged
    } else {
        ReloadDecision::Replace
    }
}

/// What follows a start.
#[derive(Debug, Clone, Copy, PartialEq, Eq, Structural)]
pub enum ReloadNext {
    /// The configuration that was started is in use.
    Running,
    /// Start the configuration before it.
    RollBack,
    /// End: neither can be started.
    GiveUp,
}

/// What follows a start, of the configuration before where `rolling_back`; `started` says
/// whether it came about.
pub fn start_outcome(rolling_back: bool, started: bool) -> (r: ReloadNext)
    ensures
        started ==> r is Running,
        !started && !rolling_back ==> r is RollBack,
        !started && rolling_back ==> r is GiveUp,
{
    if started {
        ReloadNext::Running
    } else if rolling_back {
        ReloadNext::GiveUp
    } else {
        ReloadNext::RollBack
    }
}

/// What is said where neither the new configuration nor the one before could be started.
pub fn rollback_failure_text(reload_error: &str, rollback_error: &str) -> (r: String)
    ensures
        r@ == "new configuration failed to start: "@ + reload_error@ + "; rollback also failed: "@
            + rollback_error@,
{
    concat4(
        "new configuration failed to start: ",
        reload_error,
        "; rollback also failed: ",
        rollback_error,
    )
}

/// An invalid configuration never replaces the one in use, not even by force.
pub proof fn invalid_configurations_are_ignored(force: bool, same_configuration: bool)
    ensures
        reload_decision(force, false, same_configuration) == ReloadDecision::Invalid,
{
}

/// A wish of somebody always replaces the one in use by a valid one.
pub proof fn forced_reloads_replace(requests: Seq<ReloadRequest>, same_configuration: bool)
    requires
        is_forced(requests),
    ensures
        reload_decision(is_forced(requests), true, same_configuration)
            == ReloadDecision::Replace,
{
}

// ---------------------------------------------------------------------------
// Laws of reloads
// ---------------------------------------------------------------------------
/// One wish of somebody among the requests is enough, wherever it stands; changes of the file
/// are never a wish, however many there are.
pub proof fn one_wish_forces(before: Seq<ReloadRequest>, behind: Seq<ReloadRequest>)
    ensures
        is_forced(before.push(ReloadRequest::Force) + behind),
        is_forced(before.push(ReloadRequest::Filesystem) + behind) == (is_forced(before)
            || is_forced(behind)),
        !is_forced(Seq::empty()),
{
    let wished = before.push(ReloadRequest::Force) + behind;
    assert(wished[before.len() as int] == ReloadRequest::Force);
    let changed = before.push(ReloadRequest::Filesystem) + behind;
    if is_forced(before) {
        let i = before.index_of(ReloadRequest::Force);
        assert(changed[i] == ReloadRequest::Force);
    }
    if is_forced(behind) {
        let i = behind.index_of(ReloadRequest::Force);
        assert(changed[before.len() + 1 + i] == ReloadRequest::Force);
    }
    if is_forced(changed) {
        let i = changed.index_of(ReloadRequest::Force);
        assert(i < before.len() ==> before[i] == ReloadRequest::Force);
        assert(i > before.len() ==> behind[i - before.len() - 1] == ReloadRequest::Force);
    }
}

/// The configuration in use is replaced by a valid one that says something else, and by a valid
/// one that somebody wishes for; it is kept in every other case.
pub proof fn valid_changes_replace(force: bool, valid: bool, same_configuration: bool)
    ensures
        reload_decision(force, valid, same_configuration) == ReloadDecision::Replace <==> valid && (
        force || !same_configuration),
        reload_decision(force, valid, same_configuration) == ReloadDecision::Invalid <==> !valid,
{
}

/// A configuration that does not start is followed by the one before, once; one that starts is
/// in use.
pub proof fn failed_starts_are_rolled_back_once(rolling_back: bool, started: bool, next: ReloadNext)
    requires
        call_ensures(start_outcome, (rolling_back, started), next),
    ensures
        next == ReloadNext::Running <==> started,
        next == ReloadNext::RollBack <==> !started && !rolling_back,
        next == ReloadNext::GiveUp <==> !started && rolling_back,
{
}

/// Requests within three tenths of a second belong together, and a start has ten seconds.
pub proof fn reloads_have_their_times()
    ensures
        10 * RELOAD_DEBOUNCE == 3 * 1_000_000_000,
        ENGINE_START_TIMEOUT == 10 * 1_000_000_000,
{
}

/// Contents are read when they differ from those that were last looked at, or when somebody
/// wishes it; they are those that were last looked at from then on, so that the same contents
/// are not read a second time without a wish.
pub proof fn changed_contents_are_read_once(force: bool, content: &str)
    ensures
        forall|state: &mut ReloadState, decision: ContentDecision| #[trigger]
            call_ensures(ReloadState::on_content, (state, force, content), decision) ==> {
                &&& decision == ContentDecision::Parse <==> force || content@
                    != state.last_observed_content@
                &&& final(state).last_observed_content@ == content@
            },
{
}

} // verus!
