//! The switch coordinator: the client-side state machine that sequences a
//! detach from the current session and an attach to the target session,
//! gated by identity validation and an optional interactive confirmation.
//!
//! The coordinator decides; the caller performs. Each `step` consumes one
//! event (the start of the invocation, the confirmation answer, or the
//! outcome of a collaborator call) and returns the next action to perform:
//! prompt the user, detach, attach, or nothing. Detach strictly precedes
//! attach, and an invalid target or a declined confirmation finishes the
//! run before any collaborator is contacted.

use vstd::prelude::*;
use vstd::string::StrSliceExecFns;

verus! {

use crate::text::has_whitespace;
use crate::text::char_is_space;
use crate::text::trim;
use crate::text::trimmed;

/// A valid session identity: non-empty, with no whitespace.
pub open spec fn valid_session_name(s: Seq<char>) -> bool {
    s.len() > 0 && !has_whitespace(s)
}

pub fn validate_session_name(s: &str) -> (r: bool)
    ensures
        r == valid_session_name(s@),
{
    if s.unicode_len() == 0 {
        return false;
    }
    !crate::text::contains_whitespace(s)
}

/// Whether a confirmation answer accepts the switch: after trimming, a
/// case-insensitive "y" or "yes". Anything else declines.
pub open spec fn affirmative(s: Seq<char>) -> bool {
    let t = trimmed(s);
    (t.len() == 1 && is_y(t[0])) || (t.len() == 3 && is_y(t[0]) && is_e(t[1]) && is_s(t[2]))
}

pub open spec fn is_y(c: char) -> bool {
    c == 'y' || c == 'Y'
}

pub open spec fn is_e(c: char) -> bool {
    c == 'e' || c == 'E'
}

pub open spec fn is_s(c: char) -> bool {
    c == 's' || c == 'S'
}

pub fn answer_is_yes(answer: &str) -> (r: bool)
    ensures
        r == affirmative(answer@),
{
    let t = trim(answer);
    let n = t.unicode_len();
    if n == 1 {
        let c = t.get_char(0);
        c == 'y' || c == 'Y'
    } else if n == 3 {
        let c0 = t.get_char(0);
        let c1 = t.get_char(1);
        let c2 = t.get_char(2);
        (c0 == 'y' || c0 == 'Y') && (c1 == 'e' || c1 == 'E') && (c2 == 's' || c2 == 'S')
    } else {
        false
    }
}

/// Everything one switch invocation works from: the session the client is
/// in (if any), the target, the confirmation gate, and the overrides
/// forwarded opaquely to attach. Built, consumed and discarded within a
/// single invocation.
pub struct SwitchIntent {
    pub current: Option<String>,
    pub target: String,
    pub confirm: bool,
    pub force: bool,
    pub ttl: Option<String>,
    pub cmd: Option<String>,
}

/// How a switch invocation ended.
#[derive(Clone, Copy, Debug, PartialEq, Eq, Structural)]
pub enum SwitchOutcome {
    /// The target name was empty or held whitespace; nothing was contacted.
    InvalidName,
    /// The client is already in the target session; nothing was contacted.
    AlreadyInSession,
    /// The user declined the confirmation; nothing was contacted.
    Cancelled,
    /// Detach failed; attach was never attempted.
    DetachFailed,
    /// Detach succeeded but attach failed; the client is left in neither
    /// session, an accepted terminal state.
    AttachFailed,
    /// The client is attached to the target session.
    Attached,
}

/// Where the coordinator stands between events.
#[derive(Clone, Copy, Debug, PartialEq, Eq, Structural)]
pub enum SwitchState {
    /// No event consumed yet.
    Start,
    /// A confirmation prompt is outstanding.
    AwaitConfirmation,
    /// A detach call is outstanding.
    AwaitDetach,
    /// An attach call is outstanding.
    AwaitAttach,
    /// The invocation is over.
    Finished(SwitchOutcome),
}

/// What the caller must do next.
#[derive(Clone, Copy, Debug, PartialEq, Eq, Structural)]
pub enum SwitchAction {
    /// Ask the user to confirm the switch and feed the answer back.
    Prompt,
    /// Detach from the current session and feed the result back.
    Detach,
    /// Attach to the target session and feed the result back.
    Attach,
    /// Nothing: the run is finished.
    Done,
}

/// One event fed into the coordinator.
pub enum SwitchEvent {
    /// The invocation begins.
    Begin,
    /// The line the user answered to the confirmation prompt.
    Answer(String),
    /// Detach returned successfully.
    DetachOk,
    /// Detach failed.
    DetachErr,
    /// Attach returned successfully.
    AttachOk,
    /// Attach failed.
    AttachErr,
}

/// The routing decision taken on the first event, before any collaborator
/// call: validate the target, recognize the no-op and fresh-attach paths,
/// and otherwise head for the confirmation gate or straight for detach.
pub open spec fn begin_transition(intent: SwitchIntent) -> (SwitchState, SwitchAction) {
    if !valid_session_name(intent.target@) {
        (SwitchState::Finished(SwitchOutcome::InvalidName), SwitchAction::Done)
    } else {
        match intent.current {
            Some(cur) => if cur@ == intent.target@ {
                (SwitchState::Finished(SwitchOutcome::AlreadyInSession), SwitchAction::Done)
            } else if intent.confirm {
                (SwitchState::AwaitConfirmation, SwitchAction::Prompt)
            } else {
                (SwitchState::AwaitDetach, SwitchAction::Detach)
            },
            None => (SwitchState::AwaitAttach, SwitchAction::Attach),
        }
    }
}

/// The transition relation of the coordinator: from a state, on an event,
/// to the next state and the action the caller must perform. An event that
/// does not belong to the state changes nothing.
pub open spec fn next_transition(intent: SwitchIntent, state: SwitchState, event: SwitchEvent) -> (
    SwitchState,
    SwitchAction,
) {
    match (state, event) {
        (SwitchState::Start, SwitchEvent::Begin) => begin_transition(intent),
        (SwitchState::AwaitConfirmation, SwitchEvent::Answer(a)) => if affirmative(a@) {
            (SwitchState::AwaitDetach, SwitchAction::Detach)
        } else {
            (SwitchState::Finished(SwitchOutcome::Cancelled), SwitchAction::Done)
        },
        (SwitchState::AwaitDetach, SwitchEvent::DetachOk) => (
            SwitchState::AwaitAttach,
            SwitchAction::Attach,
        ),
        (SwitchState::AwaitDetach, SwitchEvent::DetachErr) => (
            SwitchState::Finished(SwitchOutcome::DetachFailed),
            SwitchAction::Done,
        ),
        (SwitchState::AwaitAttach, SwitchEvent::AttachOk) => (
            SwitchState::Finished(SwitchOutcome::Attached),
            SwitchAction::Done,
        ),
        (SwitchState::AwaitAttach, SwitchEvent::AttachErr) => (
            SwitchState::Finished(SwitchOutcome::AttachFailed),
            SwitchAction::Done,
        ),
        (s, _) => (s, SwitchAction::Done),
    }
}

/// The coordinator: an intent and the state reached so far. It runs
/// entirely on the invoking client; the caller performs the returned
/// actions and feeds their outcomes back as events.
pub struct SwitchCoordinator {
    pub intent: SwitchIntent,
    pub state: SwitchState,
}

impl SwitchCoordinator {
    pub fn new(intent: SwitchIntent) -> (c: Self)
        ensures
            c.intent == intent,
            c.state == SwitchState::Start,
    {
        SwitchCoordinator { intent, state: SwitchState::Start }
    }

    /// Consumes one event and returns the action the caller must perform
    /// next, exactly as the transition relation dictates.
    pub fn step(&mut self, event: &SwitchEvent) -> (action: SwitchAction)
        ensures
            final(self).intent == old(self).intent,
            final(self).state == next_transition(old(self).intent, old(self).state, *event).0,
            action == next_transition(old(self).intent, old(self).state, *event).1,
    {
        let st = self.state;
        match (st, event) {
            (SwitchState::Start, SwitchEvent::Begin) => {
                if !validate_session_name(self.target()) {
                    self.state = SwitchState::Finished(SwitchOutcome::InvalidName);
                    SwitchAction::Done
                } else {
                    let same = match &self.intent.current {
                        Some(cur) => crate::text::str_eq(cur.as_str(), self.intent.target.as_str()),
                        None => false,
                    };
                    match &self.intent.current {
                        Some(_) => {
                            if same {
                                self.state = SwitchState::Finished(SwitchOutcome::AlreadyInSession);
                                SwitchAction::Done
                            } else if self.intent.confirm {
                                self.state = SwitchState::AwaitConfirmation;
                                SwitchAction::Prompt
                            } else {
                                self.state = SwitchState::AwaitDetach;
                                SwitchAction::Detach
                            }
                        },
                        None => {
                            self.state = SwitchState::AwaitAttach;
                            SwitchAction::Attach
                        },
                    }
                }
            },
            (SwitchState::AwaitConfirmation, SwitchEvent::Answer(a)) => {
                if answer_is_yes(a.as_str()) {
                    self.state = SwitchState::AwaitDetach;
                    SwitchAction::Detach
                } else {
                    self.state = SwitchState::Finished(SwitchOutcome::Cancelled);
                    SwitchAction::Done
                }
            },
            (SwitchState::AwaitDetach, SwitchEvent::DetachOk) => {
                self.state = SwitchState::AwaitAttach;
                SwitchAction::Attach
            },
            (SwitchState::AwaitDetach, SwitchEvent::DetachErr) => {
                self.state = SwitchState::Finished(SwitchOutcome::DetachFailed);
                SwitchAction::Done
            },
            (SwitchState::AwaitAttach, SwitchEvent::AttachOk) => {
                self.state = SwitchState::Finished(SwitchOutcome::Attached);
                SwitchAction::Done
            },
            (SwitchState::AwaitAttach, SwitchEvent::AttachErr) => {
                self.state = SwitchState::Finished(SwitchOutcome::AttachFailed);
                SwitchAction::Done
            },
            (_, _) => SwitchAction::Done,
        }
    }

    pub fn target(&self) -> (t: &str)
        ensures
            t@ == self.intent.target@,
    {
        self.intent.target.as_str()
    }
}

/// A target name that is empty or holds whitespace is rejected on the very
/// first step, before any collaborator call, whatever the current session,
/// the confirmation gate or the override flags.
pub proof fn lemma_invalid_target_rejected(intent: SwitchIntent)
    requires
        !valid_session_name(intent.target@),
    ensures
        next_transition(intent, SwitchState::Start, SwitchEvent::Begin).0 == SwitchState::Finished(
            SwitchOutcome::InvalidName,
        ),
        next_transition(intent, SwitchState::Start, SwitchEvent::Begin).1 == SwitchAction::Done,
{
}

/// Detach strictly precedes attach: the coordinator only ever asks for an
/// attach on the fresh-attach path (no current session) or from the state
/// in which a detach call just returned successfully.
pub proof fn lemma_attach_needs_detach(intent: SwitchIntent, state: SwitchState, event: SwitchEvent)
    requires
        next_transition(intent, state, event).1 == SwitchAction::Attach,
    ensures
        (state == SwitchState::Start && intent.current is None) || (state == SwitchState::AwaitDetach
            && event is DetachOk),
{
}

/// The coordinator only ever asks for a detach when a current session is
/// known and differs from the target: on the unconfirmed switch path, or
/// after an accepting confirmation answer.
pub proof fn lemma_detach_only_on_switch_path(
    intent: SwitchIntent,
    state: SwitchState,
    event: SwitchEvent,
)
    requires
        next_transition(intent, state, event).1 == SwitchAction::Detach,
    ensures
        state == SwitchState::Start || state == SwitchState::AwaitConfirmation,
        state == SwitchState::Start ==> intent.current is Some && intent.current->0@
            != intent.target@ && !intent.confirm && valid_session_name(intent.target@),
        state == SwitchState::AwaitConfirmation ==> event is Answer && affirmative(
            event->Answer_0@,
        ),
{
}

/// A failed detach is terminal: the run finishes with the detach failure
/// and no further action; in particular attach is never attempted after it.
pub proof fn lemma_detach_failure_aborts(intent: SwitchIntent)
    ensures
        next_transition(intent, SwitchState::AwaitDetach, SwitchEvent::DetachErr).0
            == SwitchState::Finished(SwitchOutcome::DetachFailed),
        next_transition(intent, SwitchState::AwaitDetach, SwitchEvent::DetachErr).1
            == SwitchAction::Done,
{
}

/// A declined confirmation is terminal with zero side effects: any answer
/// that is not an affirmative finishes the run as cancelled, and no detach
/// is ever requested.
pub proof fn lemma_declined_confirmation_aborts(intent: SwitchIntent, answer: String)
    requires
        !affirmative(answer@),
    ensures
        next_transition(intent, SwitchState::AwaitConfirmation, SwitchEvent::Answer(answer)).0
            == SwitchState::Finished(SwitchOutcome::Cancelled),
        next_transition(intent, SwitchState::AwaitConfirmation, SwitchEvent::Answer(answer)).1
            == SwitchAction::Done,
{
}

/// The state reached after feeding `events`, in order, from `Start`.
pub open spec fn state_after(intent: SwitchIntent, events: Seq<SwitchEvent>) -> SwitchState
    decreases events.len(),
{
    if events.len() == 0 {
        SwitchState::Start
    } else {
        next_transition(intent, state_after(intent, events.drop_last()), events.last()).0
    }
}

/// The actions requested while feeding `events`, in order, from `Start`:
/// one per event.
pub open spec fn actions_after(intent: SwitchIntent, events: Seq<SwitchEvent>) -> Seq<SwitchAction>
    decreases events.len(),
{
    if events.len() == 0 {
        Seq::empty()
    } else {
        actions_after(intent, events.drop_last()).push(
            next_transition(intent, state_after(intent, events.drop_last()), events.last()).1,
        )
    }
}

/// Whenever a detach call is outstanding — or, with a current session, an
/// attach call is — a detach action stands earlier in the run.
proof fn lemma_detach_recorded(intent: SwitchIntent, events: Seq<SwitchEvent>)
    ensures
        actions_after(intent, events).len() == events.len(),
        (state_after(intent, events) == SwitchState::AwaitDetach || (intent.current is Some
            && state_after(intent, events) == SwitchState::AwaitAttach)) ==> exists|j: int|
            0 <= j < events.len() && actions_after(intent, events)[j] == SwitchAction::Detach,
    decreases events.len(),
{
    if events.len() > 0 {
        let prefix = events.drop_last();
        lemma_detach_recorded(intent, prefix);
        let st = state_after(intent, prefix);
        let step_result = next_transition(intent, st, events.last());
        if step_result.1 == SwitchAction::Detach {
            assert(actions_after(intent, events)[events.len() - 1] == SwitchAction::Detach);
        } else if (state_after(intent, events) == SwitchState::AwaitDetach || (
        intent.current is Some && state_after(intent, events) == SwitchState::AwaitAttach)) {
            let j = choose|j: int|
                0 <= j < prefix.len() && actions_after(intent, prefix)[j] == SwitchAction::Detach;
            assert(actions_after(intent, events)[j] == SwitchAction::Detach);
        }
    }
}

/// Detach strictly precedes attach, over whole runs: starting from
/// `Start`, if the client is in a session and the coordinator ever asks
/// for an attach, then it asked for a detach at an earlier step — it never
/// holds foreground control of two sessions at once.
pub proof fn lemma_run_detach_precedes_attach(
    intent: SwitchIntent,
    events: Seq<SwitchEvent>,
    i: int,
)
    requires
        intent.current is Some,
        0 <= i < events.len(),
        actions_after(intent, events)[i] == SwitchAction::Attach,
    ensures
        exists|j: int| 0 <= j < i && actions_after(intent, events)[j] == SwitchAction::Detach,
    decreases events.len(),
{
    let prefix = events.drop_last();
    lemma_detach_recorded(intent, prefix);
    if i == events.len() - 1 {
        lemma_attach_needs_detach(intent, state_after(intent, prefix), events.last());
        let j = choose|j: int|
            0 <= j < prefix.len() && actions_after(intent, prefix)[j] == SwitchAction::Detach;
        assert(actions_after(intent, events)[j] == SwitchAction::Detach);
    } else {
        lemma_run_detach_precedes_attach(intent, prefix, i);
        let j = choose|j: int|
            0 <= j < i && actions_after(intent, prefix)[j] == SwitchAction::Detach;
        assert(actions_after(intent, events)[j] == SwitchAction::Detach);
    }
}

/// With an invalid target the whole run is inert: from the very first
/// event on, every requested action is `Done` — no collaborator is ever
/// contacted, whatever the events and the other fields of the intent.
pub proof fn lemma_run_invalid_target_no_calls(intent: SwitchIntent, events: Seq<SwitchEvent>)
    requires
        !valid_session_name(intent.target@),
    ensures
        actions_after(intent, events).len() == events.len(),
        state_after(intent, events) == SwitchState::Start || state_after(intent, events)
            == SwitchState::Finished(SwitchOutcome::InvalidName),
        forall|i: int|
            0 <= i < events.len() ==> actions_after(intent, events)[i] == SwitchAction::Done,
    decreases events.len(),
{
    if events.len() > 0 {
        let prefix = events.drop_last();
        lemma_run_invalid_target_no_calls(intent, prefix);
        let last_action = next_transition(intent, state_after(intent, prefix), events.last()).1;
        assert(last_action == SwitchAction::Done);
        assert forall|i: int| 0 <= i < events.len() implies actions_after(intent, events)[i]
            == SwitchAction::Done by {
            if i < prefix.len() {
                assert(actions_after(intent, events)[i] == actions_after(intent, prefix)[i]);
            } else {
                assert(actions_after(intent, events)[i] == last_action);
            }
        }
    }
}

/// Switching to the session the client is already in is a terminal no-op:
/// no collaborator call is requested.
pub proof fn lemma_same_session_noop(intent: SwitchIntent)
    requires
        valid_session_name(intent.target@),
        intent.current is Some,
        intent.current->0@ == intent.target@,
    ensures
        next_transition(intent, SwitchState::Start, SwitchEvent::Begin).0 == SwitchState::Finished(
            SwitchOutcome::AlreadyInSession,
        ),
        next_transition(intent, SwitchState::Start, SwitchEvent::Begin).1 == SwitchAction::Done,
{
}

} // verus!
