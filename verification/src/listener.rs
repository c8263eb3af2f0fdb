//! What the two listeners decide.
//!
//! The input listener gets one key occurrence at a time and answers at once
//! whether the keystroke is withheld from the rest of the system and whether
//! an action is dispatched. The accessibility listener gets one focus change
//! at a time, records the new focus and decides what is said. Neither waits
//! for an action or an utterance to end: what they return is for the caller to
//! start.

use crate::events::{event_view, EventTypeView, ScreenReaderEventType};
use crate::input::{KeyBinding, KeyBindingView, KeyEvent, KeyEventView};
use crate::keybinds::{
    binding_matches, binding_view, chosen_binding, chosen_index, keyevent_match,
    lemma_chosen_is_first_match,
};
use crate::registry::{action_of, bindings_of, lemma_position, BindingRegistry, RegistrationView};
use crate::speech::{announcement, announcement_text, interrupting, speak, SpeechRequest,
    SpeechRequestView};
use crate::state::{FocusRecord, FocusRecordView, ScreenReaderState, StateView};
use vstd::prelude::*;

verus! {

/// What the answer to a key occurrence is.
pub struct KeyOutcomeView {
    pub consume: bool,
    pub notify: bool,
    pub matched: Option<KeyBindingView>,
    pub dispatched: Option<EventTypeView>,
}

/// The answer to one key occurrence.
#[derive(Debug, PartialEq, Eq)]
pub struct KeyOutcome {
    /// Whether the keystroke is withheld from the rest of the system.
    pub consume: bool,
    /// Whether the binding that matched is handed on for dispatch.
    pub notify: bool,
    /// The binding that matched, if one did.
    pub matched: Option<KeyBinding>,
    /// The action to start, if one is dispatched.
    pub dispatched: Option<ScreenReaderEventType>,
}

impl View for KeyOutcome {
    type V = KeyOutcomeView;

    open spec fn view(&self) -> KeyOutcomeView {
        KeyOutcomeView {
            consume: self.consume,
            notify: self.notify,
            matched: binding_view(self.matched),
            dispatched: event_view(self.dispatched),
        }
    }
}

/// The answer when no binding matches: the keystroke passes through
/// untouched and nothing is dispatched.
pub open spec fn pass_through() -> KeyOutcomeView {
    KeyOutcomeView { consume: false, notify: false, matched: None, dispatched: None }
}

/// The answer to occurrence `e` in mode `mode` with the registrations `rs`.
/// Where a binding is chosen, its own flags are the answer, and its action is
/// dispatched exactly when it notifies.
pub open spec fn key_outcome(rs: Seq<RegistrationView>, e: KeyEventView, mode: Seq<char>) -> KeyOutcomeView {
    match chosen_binding(bindings_of(rs), e, mode) {
        Some(b) => KeyOutcomeView {
            consume: b.consume,
            notify: b.notify,
            matched: Some(b),
            dispatched: if b.notify {
                action_of(rs, b.identity())
            } else {
                None
            },
        },
        None => pass_through(),
    }
}

/// Answers one key occurrence: reads the mode, matches the occurrence
/// against a snapshot of the registry, and looks up the action of the binding
/// that matched where that binding notifies.
pub fn handle_key_event(event: &KeyEvent, state: &ScreenReaderState, registry: &BindingRegistry) -> (res:
    KeyOutcome)
    ensures
        res@ == key_outcome(registry@, event@, state@.mode),
{
    match keyevent_match(event, state, registry) {
        Some(binding) => {
            let consume = binding.consume();
            let notify = binding.notify();
            let dispatched = if notify {
                registry.lookup(&binding)
            } else {
                None
            };
            KeyOutcome { consume, notify, matched: Some(binding), dispatched }
        },
        None => KeyOutcome { consume: false, notify: false, matched: None, dispatched: None },
    }
}

/// The text of an optional string.
pub open spec fn text_view(text: Option<String>) -> Option<Seq<char>> {
    match text {
        Some(t) => Some(t@),
        None => None,
    }
}

/// What an optional speech request is.
pub open spec fn speech_view(speech: Option<SpeechRequest>) -> Option<SpeechRequestView> {
    match speech {
        Some(s) => Some(s@),
        None => None,
    }
}

/// The state after focus has moved to `element`: the mode stays, and the
/// focus is `element` whatever it was.
pub open spec fn state_focused(s: StateView, element: FocusRecordView) -> StateView {
    StateView { focus: Some(element), ..s }
}

/// What is said when focus moves to an element: its name and its role, at
/// once, where both are known; nothing where either is missing.
pub open spec fn focus_speech(name: Option<Seq<char>>, role: Option<Seq<char>>) -> Option<
    SpeechRequestView,
> {
    match (name, role) {
        (Some(n), Some(r)) => Some(interrupting(announcement_text(n, r))),
        _ => None,
    }
}

/// Takes in one focus change: `element` becomes the focus, and the result is
/// what to say about it. `name` and `role` are what the bus gave for the
/// element; either is absent where the bus could not give it.
pub fn handle_focus_event(
    state: &mut ScreenReaderState,
    element: FocusRecord,
    name: Option<String>,
    role: Option<String>,
) -> (res: Option<SpeechRequest>)
    ensures
        final(state)@ == state_focused(old(state)@, element@),
        speech_view(res) == focus_speech(text_view(name), text_view(role)),
{
    state.set_focus(Some(element));
    match (name, role) {
        (Some(n), Some(r)) => {
            let text = announcement(n.as_str(), r.as_str());
            Some(speak(text.as_str()))
        },
        _ => None,
    }
}

/// No match, no effect: where no registered binding matches, the keystroke
/// passes through and nothing is dispatched.
pub proof fn lemma_no_match_passes_through(
    rs: Seq<RegistrationView>,
    e: KeyEventView,
    mode: Seq<char>,
)
    requires
        forall|i: int|
            0 <= i < rs.len() ==> !binding_matches(
                (#[trigger] rs[i]).binding,
                e,
                mode,
            ),
    ensures
        key_outcome(rs, e, mode) == pass_through(),
{
    let bs = bindings_of(rs);
    lemma_chosen_is_first_match(bs, e, mode);
    assert forall|j: int| 0 <= j < bs.len() implies !binding_matches(
        #[trigger] bs[j],
        e,
        mode,
    ) by {
        assert(bs[j] == rs[j].binding);
    }
}

/// An action is dispatched exactly when the chosen binding notifies: a
/// binding that was chosen from the registry always has its action there.
pub proof fn lemma_dispatch_follows_notify(
    rs: Seq<RegistrationView>,
    e: KeyEventView,
    mode: Seq<char>,
)
    ensures
        key_outcome(rs, e, mode).dispatched is Some <==> key_outcome(rs, e, mode).notify,
        key_outcome(rs, e, mode).matched is None ==> key_outcome(rs, e, mode) == pass_through(),
{
    let bs = bindings_of(rs);
    lemma_chosen_is_first_match(bs, e, mode);
    match chosen_index(bs, e, mode) {
        Some(i) => {
            assert(bs[i] == rs[i].binding);
            lemma_position(rs, bs[i].identity());
        },
        None => {},
    }
}

/// The focus is the element that was focused last: after a change to `first`
/// and then one to `second`, the focus is `second`, and the mode is untouched.
/// What is said about `first`, and for how long, has no part in it.
pub proof fn lemma_last_focus_wins(s: StateView, first: FocusRecordView, second: FocusRecordView)
    ensures
        state_focused(state_focused(s, first), second) == state_focused(s, second),
        state_focused(state_focused(s, first), second).focus == Some(second),
        state_focused(state_focused(s, first), second).mode == s.mode,
{
}

/// The state after focus has moved to each of `elements` in turn.
pub open spec fn focused_in_turn(s: StateView, elements: Seq<FocusRecordView>) -> StateView
    decreases elements.len(),
{
    if elements.len() == 0 {
        s
    } else {
        state_focused(focused_in_turn(s, elements.drop_last()), elements.last())
    }
}

/// After any number of focus changes, taken in the order in which they came,
/// the focus is the element of the last one, and the mode is what it was.
pub proof fn lemma_focus_is_last_focused(s: StateView, elements: Seq<FocusRecordView>)
    requires
        elements.len() > 0,
    ensures
        focused_in_turn(s, elements).focus == Some(elements.last()),
        focused_in_turn(s, elements).mode == s.mode,
    decreases elements.len(),
{
    if elements.len() > 1 {
        lemma_focus_is_last_focused(s, elements.drop_last());
    } else {
        assert(focused_in_turn(s, elements.drop_last()) == s);
    }
}

} // verus!
