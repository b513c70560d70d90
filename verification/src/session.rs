//! The dialog session: a per-user, per-workflow finite-state machine
//! over the dialog transport.
//!
//! A session presents one prompt at a time and blocks its workflow on
//! the next interaction or the step timeout. Every transition stands
//! for the previous prompt having been retracted, so a user can never
//! interact with a stale prompt; a choice value unrecognized at the
//! current state is treated as a cancellation, never as an error shown
//! to the user. Cancellation is user-driven only; besides it, only the
//! timeout ends a presented session.

use vstd::prelude::*;
use vstd::string::StringExecFns;

use crate::store::string_views;

verus! {

/// The one step timeout of every `awaitChoice` and `awaitInput` in the
/// system, in seconds. The transport retracts the outstanding prompt
/// when it fires.
pub const STEP_TIMEOUT_SECS: u64 = 120;

/// Where one dialog session stands.
#[derive(Clone, Copy, PartialEq, Eq, Structural, Debug)]
pub enum SessionState {
    /// Created; nothing presented yet.
    Prompted,
    /// A choice prompt is outstanding.
    AwaitingChoice,
    /// The user confirmed the outstanding choice.
    Confirmed,
    /// The user cancelled, or supplied a stale or forged choice.
    Cancelled,
    /// The step timeout fired; the prompt was retracted.
    TimedOut,
    /// A form prompt is outstanding.
    AwaitingInput,
    /// The form values arrived; validation is the workflow's job.
    Submitted,
    /// The workflow rejected the submitted values.
    Invalid,
}

/// One dialog session and its transient step state. It lives for one
/// workflow and is discarded at session end whatever the outcome.
pub struct DialogSession {
    pub state: SessionState,
    /// The recognized option ids of the outstanding choice prompt.
    pub options: Vec<String>,
    /// The confirmed option, once the session is `Confirmed`.
    pub chosen: Option<String>,
    /// The collected form values, once the session is `Submitted`.
    pub inputs: Vec<String>,
}

impl DialogSession {
    /// No further interaction can move a session out of these states.
    pub open spec fn is_terminal(&self) -> bool {
        self.state == SessionState::Cancelled || self.state == SessionState::TimedOut
            || self.state == SessionState::Invalid
    }

    /// Does this choice value confirm the outstanding prompt? Only a
    /// recognized option other than the cancel option does.
    pub open spec fn accepts(&self, choice: Seq<char>) -> bool {
        string_views(self.options@).contains(choice) && choice != "cancel"@
    }

    /// `present`: renders a choice prompt with the given option ids and
    /// awaits the choice.
    pub fn present(options: Vec<String>) -> (s: Self)
        ensures
            s.state == SessionState::AwaitingChoice,
            s.options == options,
            s.chosen is None,
            s.inputs@.len() == 0,
    {
        DialogSession {
            state: SessionState::AwaitingChoice,
            options,
            chosen: None,
            inputs: Vec::new(),
        }
    }

    /// `awaitChoice` delivering an interaction: a recognized option
    /// other than cancel confirms the session; the cancel option, or a
    /// stale or forged value, cancels it.
    pub fn deliver_choice(&mut self, choice: &String) -> (confirmed: bool)
        requires
            old(self).state == SessionState::AwaitingChoice,
        ensures
            confirmed == old(self).accepts(choice@),
            final(self).state == (if old(self).accepts(choice@) {
                SessionState::Confirmed
            } else {
                SessionState::Cancelled
            }),
            (match final(self).chosen {
                Some(c) => old(self).accepts(choice@) && c@ == choice@,
                None => !old(self).accepts(choice@),
            }),
            final(self).options == old(self).options,
            final(self).inputs == old(self).inputs,
    {
        let mut recognized = false;
        let mut j: usize = 0;
        while j < self.options.len()
            invariant
                j <= self.options.len(),
                recognized ==> string_views(self.options@).contains(choice@),
                !recognized ==> forall|k: int|
                    0 <= k < j ==> string_views(self.options@)[k] != choice@,
                self.state == old(self).state,
                self.options == old(self).options,
                self.chosen == old(self).chosen,
                self.inputs == old(self).inputs,
            decreases self.options.len() - j,
        {
            if self.options[j] == *choice {
                proof {
                    assert(string_views(self.options@)[j as int] == choice@);
                }
                recognized = true;
            }
            j += 1;
        }
        if recognized && !(*choice == String::from_str("cancel")) {
            self.chosen = Some(choice.clone());
            self.state = SessionState::Confirmed;
            true
        } else {
            self.chosen = None;
            self.state = SessionState::Cancelled;
            false
        }
    }

    /// `awaitChoice` or `awaitInput` timing out: the prompt is
    /// retracted and the session is terminal.
    pub fn deliver_timeout(&mut self)
        requires
            old(self).state == SessionState::AwaitingChoice || old(self).state
                == SessionState::AwaitingInput,
        ensures
            final(self).state == SessionState::TimedOut,
            final(self).options == old(self).options,
            final(self).chosen == old(self).chosen,
            final(self).inputs == old(self).inputs,
    {
        self.state = SessionState::TimedOut;
    }

    /// The workflow advances a confirmed session to its form step; the
    /// previous prompt stands retracted.
    pub fn begin_input(&mut self)
        requires
            old(self).state == SessionState::Confirmed,
        ensures
            final(self).state == SessionState::AwaitingInput,
            final(self).options == old(self).options,
            final(self).chosen == old(self).chosen,
            final(self).inputs == old(self).inputs,
    {
        self.state = SessionState::AwaitingInput;
    }

    /// `awaitInput` delivering the form values: collected as given, not
    /// validated by the session itself.
    pub fn deliver_input(&mut self, values: Vec<String>)
        requires
            old(self).state == SessionState::AwaitingInput,
        ensures
            final(self).state == SessionState::Submitted,
            final(self).inputs == values,
            final(self).options == old(self).options,
            final(self).chosen == old(self).chosen,
    {
        self.inputs = values;
        self.state = SessionState::Submitted;
    }

    /// The workflow found the submitted values invalid; the session
    /// ends.
    pub fn mark_invalid(&mut self)
        requires
            old(self).state == SessionState::Submitted,
        ensures
            final(self).state == SessionState::Invalid,
            final(self).options == old(self).options,
            final(self).chosen == old(self).chosen,
            final(self).inputs == old(self).inputs,
    {
        self.state = SessionState::Invalid;
    }
}

} // verus!
