//! From a binding to its action, and from an action to what it changes.
//!
//! Dispatch is a lookup in the registry followed by the action itself. The
//! part of an action that touches the shared state happens here. The part
//! that needs the accessibility bus is handed back as a request, for the
//! caller to carry out on a task of its own.

use crate::elements::ElementType;
use crate::events::{EventTypeView, ScreenReaderEventType};
use crate::input::{BindingIdentity, KeyBinding, KeyBindingView, KeyEventView};
use crate::keybinds::{binding_matches, key_matches, modifiers_match};
use crate::registry::{action_of, BindingRegistry, RegistrationView};
use crate::state::{ScreenReaderState, StateView};
use vstd::prelude::*;

verus! {

/// Why no action could be run.
#[derive(Clone, Copy, Debug, PartialEq, Eq, Hash, Structural)]
pub enum LookupError {
    /// No binding with the given identity is registered.
    NotRegistered,
}

/// A move of focus that the accessibility bus is asked for: to the nearest
/// element of kind `element`, after the focused one, or before it where
/// `reverse` is set.
#[derive(Clone, Copy, Debug, PartialEq, Eq, Hash, Structural)]
pub struct Navigation {
    pub element: ElementType,
    pub reverse: bool,
}

/// The state after the action `ev` has run in state `s`. Only a change of
/// mode touches the state, and it touches the mode alone.
pub open spec fn state_after(s: StateView, ev: EventTypeView) -> StateView {
    match ev {
        EventTypeView::ChangeMode(m) => StateView { mode: m, ..s },
        _ => s,
    }
}

/// The move of focus that the action `ev` asks for, if it asks for one.
pub open spec fn navigation_of(ev: EventTypeView) -> Option<Navigation> {
    match ev {
        EventTypeView::Next(element) => Some(Navigation { element, reverse: false }),
        EventTypeView::Previous(element) => Some(Navigation { element, reverse: true }),
        EventTypeView::ChangeMode(_) => None,
    }
}

/// What `run` returns for the binding identity `id` on the registrations
/// `rs`.
pub open spec fn run_result(rs: Seq<RegistrationView>, id: BindingIdentity) -> Result<
    EventTypeView,
    LookupError,
> {
    match action_of(rs, id) {
        Some(a) => Ok(a),
        None => Err(LookupError::NotRegistered),
    }
}

/// What a result of `run` is.
pub open spec fn run_view(res: Result<ScreenReaderEventType, LookupError>) -> Result<
    EventTypeView,
    LookupError,
> {
    match res {
        Ok(a) => Ok(a@),
        Err(e) => Err(e),
    }
}

/// Finds the action that is registered for the identity of `id`. A binding
/// that is not registered is an error to report, and nothing more.
pub fn run(registry: &BindingRegistry, id: &KeyBinding) -> (res: Result<
    ScreenReaderEventType,
    LookupError,
>)
    ensures
        run_view(res) == run_result(registry@, id@.identity()),
{
    match registry.lookup(id) {
        Some(action) => Ok(action),
        None => Err(LookupError::NotRegistered),
    }
}

/// Carries out the action `event` on `state`, and returns the move of focus
/// that is left for the accessibility bus to make, if there is one.
pub fn perform(state: &mut ScreenReaderState, event: &ScreenReaderEventType) -> (res: Option<
    Navigation,
>)
    ensures
        final(state)@ == state_after(old(state)@, event@),
        res == navigation_of(event@),
{
    match event {
        ScreenReaderEventType::Next(element) => Some(
            Navigation { element: *element, reverse: false },
        ),
        ScreenReaderEventType::Previous(element) => Some(
            Navigation { element: *element, reverse: true },
        ),
        ScreenReaderEventType::ChangeMode(mode) => {
            state.set_mode(mode.clone());
            None
        },
    }
}

/// After a change to mode `target`, a binding scoped to `target` matches
/// whatever its key, flags and repeat count let through, and a binding scoped
/// to any other mode matches nothing.
pub proof fn lemma_mode_change_gates_bindings(
    s: StateView,
    target: Seq<char>,
    b: KeyBindingView,
    e: KeyEventView,
)
    requires
        b.mode is Some,
    ensures
        state_after(s, EventTypeView::ChangeMode(target)).mode == target,
        state_after(s, EventTypeView::ChangeMode(target)).focus == s.focus,
        b.mode == Some(target) ==> (binding_matches(
            b,
            e,
            state_after(s, EventTypeView::ChangeMode(target)).mode,
        ) <==> key_matches(b.key, e.key) && b.repeat == e.repeat
            && modifiers_match(b.mods, e.mods)),
        b.mode != Some(target) ==> !binding_matches(
            b,
            e,
            state_after(s, EventTypeView::ChangeMode(target)).mode,
        ),
{
}

/// Only a change of mode changes the mode, and no action changes the focus.
pub proof fn lemma_actions_and_state(s: StateView, ev: EventTypeView)
    ensures
        state_after(s, ev).focus == s.focus,
        !(ev is ChangeMode) ==> state_after(s, ev) == s,
        ev is ChangeMode <==> navigation_of(ev) is None,
{
}

} // verus!
