//! Matching a key occurrence against key bindings.
//!
//! A binding matches an occurrence in a mode when four rules hold together:
//! its key is absent or is the key pressed; its repeat count is the count of
//! the occurrence; its modifier flags and those held are both none, or share a
//! flag; its mode is absent or is the current mode.
//!
//! The bindings are tried in a fixed order: those scoped to a mode first, in
//! the order in which they stand, then those for every mode, in the order in
//! which they stand. The first that matches is the result. So a binding for
//! the current mode wins over one for every mode, wherever the two stand.

use crate::input::{overlap, Key, KeyBinding, KeyBindingView, KeyEvent, KeyEventView, Modifier};
use crate::modes::ScreenReaderMode;
use crate::registry::{bindings_of, BindingRegistry};
use crate::state::ScreenReaderState;
use vstd::prelude::*;

verus! {

/// The key rule: a binding without a key takes any key.
pub open spec fn key_matches(wanted: Option<Key>, pressed: Key) -> bool {
    wanted is None || wanted == Some(pressed)
}

/// The modifier rule: both sets are empty, or they share a flag. Neither has
/// to hold all the flags of the other.
pub open spec fn modifiers_match(wanted: Set<Modifier>, held: Set<Modifier>) -> bool {
    (wanted == Set::<Modifier>::empty() && held == Set::<Modifier>::empty()) || overlap(
        wanted,
        held,
    )
}

/// The mode rule: a binding without a mode applies in every mode.
pub open spec fn mode_matches(scope: Option<Seq<char>>, current: Seq<char>) -> bool {
    scope is None || scope == Some(current)
}

/// Whether binding `b` matches occurrence `e` while the mode is `mode`.
pub open spec fn binding_matches(b: KeyBindingView, e: KeyEventView, mode: Seq<char>) -> bool {
    &&& key_matches(b.key, e.key)
    &&& b.repeat == e.repeat
    &&& modifiers_match(b.mods, e.mods)
    &&& mode_matches(b.mode, mode)
}

/// Whether `b` matches and is of the given kind: scoped to a mode, or not.
pub open spec fn candidate(b: KeyBindingView, e: KeyEventView, mode: Seq<char>, scoped: bool) -> bool {
    binding_matches(b, e, mode) && (b.mode is Some) == scoped
}

/// The place of the first candidate of the given kind in `bs`.
pub open spec fn first_candidate(
    bs: Seq<KeyBindingView>,
    e: KeyEventView,
    mode: Seq<char>,
    scoped: bool,
) -> Option<int>
    decreases bs.len(),
{
    if bs.len() == 0 {
        None
    } else {
        match first_candidate(bs.drop_last(), e, mode, scoped) {
            Some(i) => Some(i),
            None => if candidate(bs.last(), e, mode, scoped) {
                Some(bs.len() - 1)
            } else {
                None
            },
        }
    }
}

/// The place in `bs` of the binding that is chosen for `e` in `mode`: the
/// first scoped binding that matches, or else the first unscoped one.
pub open spec fn chosen_index(bs: Seq<KeyBindingView>, e: KeyEventView, mode: Seq<char>) -> Option<
    int,
> {
    match first_candidate(bs, e, mode, true) {
        Some(i) => Some(i),
        None => first_candidate(bs, e, mode, false),
    }
}

/// The binding of `bs` that is chosen for `e` in `mode`, if any matches.
pub open spec fn chosen_binding(
    bs: Seq<KeyBindingView>,
    e: KeyEventView,
    mode: Seq<char>,
) -> Option<KeyBindingView> {
    match chosen_index(bs, e, mode) {
        Some(i) => Some(bs[i]),
        None => None,
    }
}

/// What each of the bindings is, in the order in which they stand.
pub open spec fn binding_views(kbs: Seq<KeyBinding>) -> Seq<KeyBindingView> {
    Seq::new(kbs.len(), |i: int| kbs[i]@)
}

/// What an optional binding is.
pub open spec fn binding_view(kb: Option<KeyBinding>) -> Option<KeyBindingView> {
    match kb {
        Some(b) => Some(b@),
        None => None,
    }
}

/// The first candidate is a candidate, and none stands before it; there is
/// none exactly when no binding is a candidate.
pub proof fn lemma_first_candidate(
    bs: Seq<KeyBindingView>,
    e: KeyEventView,
    mode: Seq<char>,
    scoped: bool,
)
    ensures
        first_candidate(bs, e, mode, scoped) matches Some(i) ==> 0 <= i < bs.len() && candidate(
            bs[i],
            e,
            mode,
            scoped,
        ) && forall|j: int| 0 <= j < i ==> !candidate(#[trigger] bs[j], e, mode, scoped),
        first_candidate(bs, e, mode, scoped) is None ==> forall|j: int|
            0 <= j < bs.len() ==> !candidate(#[trigger] bs[j], e, mode, scoped),
    decreases bs.len(),
{
    if bs.len() > 0 {
        let front = bs.drop_last();
        lemma_first_candidate(front, e, mode, scoped);
        assert forall|j: int| 0 <= j < front.len() implies front[j] == bs[j] by {}
        match first_candidate(front, e, mode, scoped) {
            Some(i) => {
                assert(front[i] == bs[i]);
                assert forall|j: int| 0 <= j < i implies !candidate(
                    #[trigger] bs[j],
                    e,
                    mode,
                    scoped,
                ) by {
                    assert(front[j] == bs[j]);
                }
            },
            None => {
                assert forall|j: int| 0 <= j < bs.len() - 1 implies !candidate(
                    #[trigger] bs[j],
                    e,
                    mode,
                    scoped,
                ) by {
                    assert(front[j] == bs[j]);
                }
            },
        }
    }
}

/// A candidate before which no candidate stands is the first candidate.
pub proof fn lemma_first_candidate_is(
    bs: Seq<KeyBindingView>,
    e: KeyEventView,
    mode: Seq<char>,
    scoped: bool,
    i: int,
)
    requires
        0 <= i < bs.len(),
        candidate(bs[i], e, mode, scoped),
        forall|j: int| 0 <= j < i ==> !candidate(#[trigger] bs[j], e, mode, scoped),
    ensures
        first_candidate(bs, e, mode, scoped) == Some(i),
{
    lemma_first_candidate(bs, e, mode, scoped);
}

/// Where no binding is a candidate, there is no first candidate.
pub proof fn lemma_no_candidate(
    bs: Seq<KeyBindingView>,
    e: KeyEventView,
    mode: Seq<char>,
    scoped: bool,
)
    requires
        forall|j: int| 0 <= j < bs.len() ==> !candidate(#[trigger] bs[j], e, mode, scoped),
    ensures
        first_candidate(bs, e, mode, scoped) is None,
{
    lemma_first_candidate(bs, e, mode, scoped);
}

impl KeyBinding {
    /// Whether the binding matches `event` while the mode is `mode`.
    pub fn matches(&self, event: &KeyEvent, mode: &ScreenReaderMode) -> (res: bool)
        ensures
            res == binding_matches(self@, event@, mode@),
    {
        let key_ok = match self.key() {
            Some(k) => k == event.key(),
            None => true,
        };
        let mods_ok = (self.mods().is_empty() && event.mods().is_empty()) || self.mods().intersects(
            event.mods(),
        );
        let mode_ok = match self.mode() {
            Some(m) => m.same_as(mode),
            None => true,
        };
        key_ok && self.repeat() == event.repeat() && mods_ok && mode_ok
    }
}

/// Matches `kbm` against the bindings `kbs` in the mode that `state` holds,
/// and returns a copy of the binding that is chosen, if any matches.
pub fn keyevent_match_sync(
    kbm: &KeyEvent,
    state: &ScreenReaderState,
    kbs: &Vec<KeyBinding>,
) -> (res: Option<KeyBinding>)
    ensures
        binding_view(res) == chosen_binding(binding_views(kbs@), kbm@, state@.mode),
{
    let ghost bs = binding_views(kbs@);
    let ghost e = kbm@;
    let ghost mode = state@.mode;
    let mut fallback: Option<usize> = None;
    let mut i: usize = 0;
    while i < kbs.len()
        invariant
            i <= kbs.len(),
            bs == binding_views(kbs@),
            e == kbm@,
            mode == state@.mode,
            forall|j: int| 0 <= j < i ==> !candidate(#[trigger] bs[j], e, mode, true),
            fallback matches Some(f) ==> f < i && candidate(bs[f as int], e, mode, false)
                && forall|j: int| 0 <= j < f ==> !candidate(#[trigger] bs[j], e, mode, false),
            fallback is None ==> forall|j: int|
                0 <= j < i ==> !candidate(#[trigger] bs[j], e, mode, false),
        decreases kbs.len() - i,
    {
        let kb = &kbs[i];
        assert(bs[i as int] == kb@);
        if kb.matches(kbm, &state.mode) {
            if kb.mode().is_some() {
                proof {
                    lemma_first_candidate_is(bs, e, mode, true, i as int);
                }
                return Some(kb.clone());
            } else if fallback.is_none() {
                fallback = Some(i);
            }
        }
        i += 1;
    }
    proof {
        lemma_no_candidate(bs, e, mode, true);
    }
    match fallback {
        Some(f) => {
            proof {
                lemma_first_candidate_is(bs, e, mode, false, f as int);
            }
            Some(kbs[f].clone())
        },
        None => {
            proof {
                lemma_no_candidate(bs, e, mode, false);
            }
            None
        },
    }
}

/// Matches `kbm` against a snapshot of the bindings registered in
/// `registry`, in the mode that `state` holds, and returns a copy of the
/// binding that is chosen, if any matches.
pub fn keyevent_match(kbm: &KeyEvent, state: &ScreenReaderState, registry: &BindingRegistry) -> (res:
    Option<KeyBinding>)
    ensures
        binding_view(res) == chosen_binding(bindings_of(registry@), kbm@, state@.mode),
{
    let kbs = registry.snapshot();
    keyevent_match_sync(kbm, state, &kbs)
}

/// Whether binding `i` of `bs` is tried before binding `j`: a scoped binding
/// before an unscoped one, and of two of one kind the one that stands first.
pub open spec fn tried_before(bs: Seq<KeyBindingView>, i: int, j: int) -> bool {
    (bs[i].mode is Some && bs[j].mode is None) || ((bs[i].mode is Some) == (bs[j].mode is Some) && i
        < j)
}

/// The chosen binding matches, and it is tried before every other binding
/// that matches. No binding is chosen exactly when none matches.
pub proof fn lemma_chosen_is_first_match(bs: Seq<KeyBindingView>, e: KeyEventView, mode: Seq<char>)
    ensures
        chosen_index(bs, e, mode) matches Some(i) ==> 0 <= i < bs.len() && binding_matches(
            bs[i],
            e,
            mode,
        ) && forall|j: int|
            0 <= j < bs.len() && j != i && binding_matches(#[trigger] bs[j], e, mode)
                ==> tried_before(bs, i, j),
        chosen_index(bs, e, mode) is None <==> forall|j: int|
            0 <= j < bs.len() ==> !binding_matches(#[trigger] bs[j], e, mode),
{
    lemma_first_candidate(bs, e, mode, true);
    lemma_first_candidate(bs, e, mode, false);
    if chosen_index(bs, e, mode) is None {
        assert forall|j: int| 0 <= j < bs.len() implies !binding_matches(
            #[trigger] bs[j],
            e,
            mode,
        ) by {
            assert(!candidate(bs[j], e, mode, true));
            assert(!candidate(bs[j], e, mode, false));
        }
    } else {
        let i = chosen_index(bs, e, mode).unwrap();
        assert forall|j: int|
            0 <= j < bs.len() && j != i && binding_matches(
                #[trigger] bs[j],
                e,
                mode,
            ) implies tried_before(bs, i, j) by {
            assert(candidate(bs[j], e, mode, bs[j].mode is Some));
        }
    }
}

/// Matching gives one answer for one question: the choice is a function of
/// the occurrence, the mode and the bindings in their order, and of nothing
/// else.
pub proof fn lemma_matching_is_stable(
    bs1: Seq<KeyBindingView>,
    bs2: Seq<KeyBindingView>,
    e: KeyEventView,
    mode: Seq<char>,
)
    requires
        bs1.len() == bs2.len(),
        forall|i: int| 0 <= i < bs1.len() ==> bs1[i] == bs2[i],
    ensures
        chosen_binding(bs1, e, mode) == chosen_binding(bs2, e, mode),
{
    assert(bs1 =~= bs2);
}

/// Where exactly one binding matches, it is chosen, wherever it stands among
/// the others.
pub proof fn lemma_sole_match_is_chosen(
    bs: Seq<KeyBindingView>,
    e: KeyEventView,
    mode: Seq<char>,
    i: int,
)
    requires
        0 <= i < bs.len(),
        binding_matches(bs[i], e, mode),
        forall|j: int| 0 <= j < bs.len() && j != i ==> !binding_matches(#[trigger] bs[j], e, mode),
    ensures
        chosen_index(bs, e, mode) == Some(i),
        chosen_binding(bs, e, mode) == Some(bs[i]),
{
    lemma_chosen_is_first_match(bs, e, mode);
}

/// The bindings of `bs` that match, in the order in which they stand.
pub open spec fn matching_bindings(bs: Seq<KeyBindingView>, e: KeyEventView, mode: Seq<char>) -> Seq<
    KeyBindingView,
> {
    bs.filter(|b: KeyBindingView| binding_matches(b, e, mode))
}

/// The first candidate among all the bindings is the first candidate among
/// those that match.
proof fn lemma_first_candidate_of_matching(
    bs: Seq<KeyBindingView>,
    e: KeyEventView,
    mode: Seq<char>,
    scoped: bool,
)
    ensures
        first_candidate(bs, e, mode, scoped) is Some <==> first_candidate(
            matching_bindings(bs, e, mode),
            e,
            mode,
            scoped,
        ) is Some,
        first_candidate(bs, e, mode, scoped) matches Some(i) ==> bs[i] == matching_bindings(
            bs,
            e,
            mode,
        )[first_candidate(matching_bindings(bs, e, mode), e, mode, scoped).unwrap()],
    decreases bs.len(),
{
    let pred = |b: KeyBindingView| binding_matches(b, e, mode);
    reveal(Seq::filter);
    if bs.len() > 0 {
        let front = bs.drop_last();
        lemma_first_candidate_of_matching(front, e, mode, scoped);
        lemma_first_candidate(front, e, mode, scoped);
        lemma_first_candidate(front.filter(pred), e, mode, scoped);
        if pred(bs.last()) {
            let kept = front.filter(pred).push(bs.last());
            assert(bs.filter(pred) == kept);
            assert(kept.drop_last() =~= front.filter(pred));
            assert(kept.last() == bs.last());
        } else {
            assert(bs.filter(pred) == front.filter(pred));
        }
    } else {
        assert(bs.filter(pred) =~= bs);
    }
}

/// Only the bindings that match, and the order among them, decide the
/// choice. Bindings that do not match may be added, taken out or moved
/// without changing it.
pub proof fn lemma_choice_depends_on_matching_only(
    bs1: Seq<KeyBindingView>,
    bs2: Seq<KeyBindingView>,
    e: KeyEventView,
    mode: Seq<char>,
)
    requires
        matching_bindings(bs1, e, mode) == matching_bindings(bs2, e, mode),
    ensures
        chosen_binding(bs1, e, mode) == chosen_binding(bs2, e, mode),
{
    lemma_first_candidate_of_matching(bs1, e, mode, true);
    lemma_first_candidate_of_matching(bs1, e, mode, false);
    lemma_first_candidate_of_matching(bs2, e, mode, true);
    lemma_first_candidate_of_matching(bs2, e, mode, false);
}

/// A binding matches only an occurrence with its own repeat count: one for a
/// single press does not match a double press, nor the other way round.
pub proof fn lemma_repeat_counts_agree(b: KeyBindingView, e: KeyEventView, mode: Seq<char>)
    ensures
        binding_matches(b, e, mode) ==> b.repeat == e.repeat,
        b.repeat != e.repeat ==> !binding_matches(b, e, mode),
{
}

/// Modifier flags match by a shared flag: one flag in common is enough,
/// whatever else either side holds.
pub proof fn lemma_shared_flag_matches(wanted: Set<Modifier>, held: Set<Modifier>, flag: Modifier)
    requires
        wanted.contains(flag),
        held.contains(flag),
    ensures
        modifiers_match(wanted, held),
{
}

/// A binding without modifier flags matches only an occurrence without
/// modifier flags.
pub proof fn lemma_no_flags_match_no_flags(wanted: Set<Modifier>, held: Set<Modifier>)
    requires
        wanted == Set::<Modifier>::empty(),
    ensures
        modifiers_match(wanted, held) <==> held == Set::<Modifier>::empty(),
{
}

/// A binding scoped to a mode matches in that mode and in no other.
pub proof fn lemma_scoped_binding_needs_its_mode(
    b: KeyBindingView,
    e: KeyEventView,
    scope: Seq<char>,
    current: Seq<char>,
)
    requires
        b.mode == Some(scope),
    ensures
        binding_matches(b, e, current) ==> current == scope,
        binding_matches(b, e, scope) <==> key_matches(b.key, e.key) && b.repeat == e.repeat
            && modifiers_match(b.mods, e.mods),
{
}

/// Of two bindings with the same key, modifier flags and repeat count, one
/// scoped to the current mode and one for every mode, the scoped one wins:
/// where they match, the chosen binding is scoped to the current mode, and is
/// never the unscoped one, whichever of the two stands first.
pub proof fn lemma_scoped_binding_wins(
    bs: Seq<KeyBindingView>,
    e: KeyEventView,
    mode: Seq<char>,
    scoped: int,
    unscoped: int,
)
    requires
        0 <= scoped < bs.len(),
        0 <= unscoped < bs.len(),
        bs[scoped].mode == Some(mode),
        bs[unscoped].mode is None,
        bs[scoped].key == bs[unscoped].key,
        bs[scoped].mods == bs[unscoped].mods,
        bs[scoped].repeat == bs[unscoped].repeat,
        binding_matches(bs[unscoped], e, mode),
    ensures
        chosen_index(bs, e, mode) is Some,
        chosen_index(bs, e, mode) != Some(unscoped),
        chosen_binding(bs, e, mode).unwrap().mode == Some(mode),
        (forall|j: int|
            0 <= j < bs.len() && j != scoped && j != unscoped ==> !binding_matches(
                #[trigger] bs[j],
                e,
                mode,
            )) ==> chosen_binding(bs, e, mode) == Some(bs[scoped]),
{
    lemma_chosen_is_first_match(bs, e, mode);
    assert(binding_matches(bs[scoped], e, mode));
    let i = chosen_index(bs, e, mode).unwrap();
    if i != scoped {
        assert(tried_before(bs, i, scoped));
    }
}

} // verus!
