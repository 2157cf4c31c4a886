//! Polling for the fuller function list while the backend still analyses a
//! freshly loaded binary: the decision taken after each poll.

use vstd::prelude::*;

use crate::text::chars_of;

verus! {

/// Most polls made for one binary before polling stops.
pub const MAX_POLL_ATTEMPTS: u32 = 200;

/// Milliseconds waited before each poll.
pub const POLL_INTERVAL_MS: u32 = 1500;

/// What one poll found.
#[derive(Clone, Copy, PartialEq, Eq, Structural, Debug)]
pub enum PollEvent {
    /// Another binary was loaded meanwhile; this poll is moot.
    SessionChanged,
    /// The backend answered with a function list; `still_analyzing` tells
    /// whether its analysis goes on.
    Listed { still_analyzing: bool },
    /// The session expired or the backend could not be reached.
    Failed,
}

/// What to do after a poll.
#[derive(Clone, Copy, PartialEq, Eq, Structural, Debug)]
pub enum PollAction {
    /// Stop quietly and leave the state alone.
    Stop,
    /// Take the function list that came back, set the analysing flag to
    /// `analyzing`, and poll again after the interval when `analyzing` holds.
    Apply { analyzing: bool },
}

/// The decision after poll number `attempt` (counted from 0).
pub open spec fn poll_action_of(attempt: u32, event: PollEvent) -> PollAction {
    match event {
        PollEvent::SessionChanged => PollAction::Stop,
        PollEvent::Failed => PollAction::Stop,
        PollEvent::Listed { still_analyzing } => PollAction::Apply {
            analyzing: still_analyzing && attempt + 1 < MAX_POLL_ATTEMPTS,
        },
    }
}

/// The decision after poll number `attempt`: a changed session or a failed
/// poll stops polling without touching the state; a function list is taken,
/// and polling goes on while the backend still analyses and attempts are
/// left. When they run out the analysing flag is cleared.
pub fn poll_action(attempt: u32, event: PollEvent) -> (r: PollAction)
    requires
        attempt < MAX_POLL_ATTEMPTS,
    ensures
        r == poll_action_of(attempt, event),
        r matches PollAction::Apply { analyzing } && analyzing ==> attempt + 1 < MAX_POLL_ATTEMPTS,
{
    match event {
        PollEvent::SessionChanged => PollAction::Stop,
        PollEvent::Failed => PollAction::Stop,
        PollEvent::Listed { still_analyzing } => PollAction::Apply {
            analyzing: still_analyzing && attempt + 1 < MAX_POLL_ATTEMPTS,
        },
    }
}

/// Polling stops quietly on a changed session or a failed poll; a function
/// list is always taken, and polling goes on exactly when the backend still
/// analyses and fewer than 200 polls have been made, counting this one.
pub proof fn law_poll_action(attempt: u32, event: PollEvent)
    ensures
        event == PollEvent::SessionChanged ==> poll_action_of(attempt, event) == PollAction::Stop,
        event == PollEvent::Failed ==> poll_action_of(attempt, event) == PollAction::Stop,
        forall|still: bool|
            event == (PollEvent::Listed { still_analyzing: still }) ==> #[trigger] poll_action_of(
                attempt,
                PollEvent::Listed { still_analyzing: still },
            ) == (PollAction::Apply { analyzing: still && attempt + 1 < 200 }),
{
}

/// Whether the session recorded now is still the one being polled for;
/// another binary loaded meanwhile makes the poll moot.
pub fn is_current_session(current: &Option<String>, polled: &str) -> (r: bool)
    ensures
        r == (current matches Some(id) && id@ == polled@),
{
    match current {
        None => false,
        Some(id) => {
            let a = chars_of(id.as_str());
            let b = chars_of(polled);
            if a.len() != b.len() {
                return false;
            }
            let mut i: usize = 0;
            while i < a.len()
                invariant
                    *current == Some(*id),
                    a@ == id@,
                    b@ == polled@,
                    a.len() == b.len(),
                    i <= a.len(),
                    forall|k: int| 0 <= k < i ==> a@[k] == b@[k],
                decreases a.len() - i,
            {
                if a[i] != b[i] {
                    return false;
                }
                i = i + 1;
            }
            assert(a@ =~= b@);
            true
        },
    }
}

} // verus!
