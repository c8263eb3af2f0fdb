use odilia::input::{Key, KeyBinding, KeyEvent, Modifier, Modifiers};
use odilia::keybinds::{keyevent_match, keyevent_match_sync};
use odilia::elements::ElementType;
use odilia::events::ScreenReaderEventType;
use odilia::modes::ScreenReaderMode;
use odilia::registry::BindingRegistry;
use odilia::state::{init_state, ScreenReaderState};

fn state_in(mode: &str) -> ScreenReaderState {
    let mut state = init_state();
    state.set_mode(ScreenReaderMode::new(mode));
    state
}

fn press(c: char, mods: Modifiers, repeat: u8) -> KeyEvent {
    KeyEvent::new(Key::Other(c), mods, repeat).unwrap()
}

fn on(c: char) -> KeyBinding {
    KeyBinding::new(Some(Key::Other(c)))
}

#[test]
fn plain_key_matches_in_any_mode() {
    let kbs = vec![on('h')];
    let e = press('h', Modifiers::none(), 1);
    assert_eq!(keyevent_match_sync(&e, &state_in("BrowseMode"), &kbs), Some(on('h')));
    assert_eq!(keyevent_match_sync(&e, &state_in("FocusMode"), &kbs), Some(on('h')));
}

#[test]
fn other_key_does_not_match() {
    let kbs = vec![on('h')];
    let e = press('k', Modifiers::none(), 1);
    assert_eq!(keyevent_match_sync(&e, &init_state(), &kbs), None);
    let e = KeyEvent::new(Key::Home, Modifiers::none(), 1).unwrap();
    assert_eq!(keyevent_match_sync(&e, &init_state(), &kbs), None);
}

#[test]
fn no_bindings_no_match() {
    let e = press('h', Modifiers::none(), 1);
    assert_eq!(keyevent_match_sync(&e, &init_state(), &Vec::new()), None);
}

#[test]
fn binding_without_key_takes_any_key() {
    let any = KeyBinding::new(None).with_mods(Modifiers::control()).with_consume(false);
    let kbs = vec![any.clone()];
    let state = init_state();
    let e = press('x', Modifiers::only(Modifier::ControlL), 1);
    assert_eq!(keyevent_match_sync(&e, &state, &kbs), Some(any.clone()));
    let e = KeyEvent::new(Key::F5, Modifiers::only(Modifier::ControlR), 1).unwrap();
    assert_eq!(keyevent_match_sync(&e, &state, &kbs), Some(any));
}

#[test]
fn repeat_count_must_be_equal() {
    let once = on('h');
    let twice = on('h').with_repeat(2).unwrap();
    let state = init_state();
    let single = press('h', Modifiers::none(), 1);
    let double = press('h', Modifiers::none(), 2);
    assert_eq!(keyevent_match_sync(&double, &state, &vec![once.clone()]), None);
    assert_eq!(keyevent_match_sync(&single, &state, &vec![twice.clone()]), None);
    assert_eq!(keyevent_match_sync(&single, &state, &vec![once.clone()]), Some(once.clone()));
    assert_eq!(keyevent_match_sync(&double, &state, &vec![twice.clone()]), Some(twice.clone()));
    let both = vec![once.clone(), twice.clone()];
    assert_eq!(keyevent_match_sync(&single, &state, &both), Some(once));
    assert_eq!(keyevent_match_sync(&double, &state, &both), Some(twice));
}

#[test]
fn repeat_is_not_at_least() {
    let once = on('h');
    let state = init_state();
    let triple = press('h', Modifiers::none(), 3);
    assert_eq!(keyevent_match_sync(&triple, &state, &vec![once]), None);
}

#[test]
fn control_binding_matches_control_and_shift() {
    let b = on('h').with_mods(Modifiers::control());
    let e = press('h', Modifiers::control().union(Modifiers::shift()), 1);
    assert_eq!(keyevent_match_sync(&e, &init_state(), &vec![b.clone()]), Some(b));
}

#[test]
fn binding_without_modifiers_matches_only_without_modifiers() {
    let b = on('h');
    let state = init_state();
    let bare = press('h', Modifiers::none(), 1);
    let shifted = press('h', Modifiers::shift(), 1);
    let odilia = press('h', Modifiers::only(Modifier::Odilia), 1);
    assert_eq!(keyevent_match_sync(&bare, &state, &vec![b.clone()]), Some(b.clone()));
    assert_eq!(keyevent_match_sync(&shifted, &state, &vec![b.clone()]), None);
    assert_eq!(keyevent_match_sync(&odilia, &state, &vec![b]), None);
}

#[test]
fn binding_with_modifiers_does_not_match_bare_key() {
    let b = on('h').with_mods(Modifiers::shift());
    let bare = press('h', Modifiers::none(), 1);
    assert_eq!(keyevent_match_sync(&bare, &init_state(), &vec![b]), None);
}

#[test]
fn one_of_two_wanted_modifiers_is_enough() {
    let b = on('h').with_mods(Modifiers::control().union(Modifiers::alt()));
    let state = init_state();
    let only_alt = press('h', Modifiers::only(Modifier::AltR), 1);
    assert_eq!(keyevent_match_sync(&only_alt, &state, &vec![b.clone()]), Some(b.clone()));
    let only_shift = press('h', Modifiers::shift(), 1);
    assert_eq!(keyevent_match_sync(&only_shift, &state, &vec![b]), None);
}

#[test]
fn disjoint_modifiers_do_not_match() {
    let b = on('h').with_mods(Modifiers::only(Modifier::ControlL));
    let e = press('h', Modifiers::only(Modifier::ControlR), 1);
    assert_eq!(keyevent_match_sync(&e, &init_state(), &vec![b]), None);
}

#[test]
fn scoped_binding_matches_only_in_its_mode() {
    let b = on('h').with_mode(Some(ScreenReaderMode::new("BrowseMode")));
    let e = press('h', Modifiers::none(), 1);
    assert_eq!(keyevent_match_sync(&e, &state_in("FocusMode"), &vec![b.clone()]), None);
    assert_eq!(keyevent_match_sync(&e, &state_in("BrowseMode"), &vec![b.clone()]), Some(b));
}

#[test]
fn scoped_binding_wins_when_it_stands_last() {
    let scoped = on('h').with_mode(Some(ScreenReaderMode::new("BrowseMode"))).with_consume(false);
    let unscoped = on('h');
    let e = press('h', Modifiers::none(), 1);
    let kbs = vec![unscoped.clone(), scoped.clone()];
    assert_eq!(keyevent_match_sync(&e, &state_in("BrowseMode"), &kbs), Some(scoped));
    assert_eq!(keyevent_match_sync(&e, &state_in("FocusMode"), &kbs), Some(unscoped));
}

#[test]
fn scoped_binding_wins_when_it_stands_first() {
    let scoped = on('h').with_mode(Some(ScreenReaderMode::new("BrowseMode"))).with_consume(false);
    let unscoped = on('h');
    let e = press('h', Modifiers::none(), 1);
    let kbs = vec![scoped.clone(), unscoped.clone()];
    assert_eq!(keyevent_match_sync(&e, &state_in("BrowseMode"), &kbs), Some(scoped));
    assert_eq!(keyevent_match_sync(&e, &state_in("FocusMode"), &kbs), Some(unscoped));
}

#[test]
fn first_of_two_unscoped_matches_wins() {
    let any = KeyBinding::new(None).with_notify(false);
    let h = on('h');
    let e = press('h', Modifiers::none(), 1);
    let state = init_state();
    assert_eq!(keyevent_match_sync(&e, &state, &vec![any.clone(), h.clone()]), Some(any.clone()));
    assert_eq!(keyevent_match_sync(&e, &state, &vec![h.clone(), any]), Some(h));
}

#[test]
fn first_of_two_scoped_matches_wins() {
    let browse = Some(ScreenReaderMode::new("BrowseMode"));
    let any = KeyBinding::new(None).with_mode(browse.clone());
    let h = on('h').with_mode(browse);
    let e = press('h', Modifiers::none(), 1);
    let state = state_in("BrowseMode");
    assert_eq!(keyevent_match_sync(&e, &state, &vec![any.clone(), h.clone()]), Some(any.clone()));
    assert_eq!(keyevent_match_sync(&e, &state, &vec![h.clone(), any]), Some(h));
}

#[test]
fn matching_twice_gives_the_same_binding() {
    let kbs = vec![
        on('k'),
        on('h').with_mods(Modifiers::shift()),
        KeyBinding::new(None).with_mods(Modifiers::control()),
        on('h'),
    ];
    let state = init_state();
    for e in [
        press('h', Modifiers::none(), 1),
        press('h', Modifiers::shift(), 1),
        press('z', Modifiers::control(), 1),
        press('z', Modifiers::none(), 1),
    ] {
        let first = keyevent_match_sync(&e, &state, &kbs);
        let second = keyevent_match_sync(&e, &state, &kbs);
        assert_eq!(first, second);
    }
}

#[test]
fn bindings_that_do_not_match_do_not_count() {
    let h = on('h');
    let e = press('h', Modifiers::none(), 1);
    let state = init_state();
    let alone = vec![h.clone()];
    let among = vec![on('k'), on('h').with_repeat(2).unwrap(), h.clone(), on('j')];
    let moved = vec![on('j'), h.clone(), on('k'), on('h').with_repeat(2).unwrap()];
    assert_eq!(keyevent_match_sync(&e, &state, &alone), Some(h.clone()));
    assert_eq!(keyevent_match_sync(&e, &state, &among), Some(h.clone()));
    assert_eq!(keyevent_match_sync(&e, &state, &moved), Some(h));
}

#[test]
fn returned_binding_carries_its_flags() {
    let b = on('h').with_consume(false).with_notify(true);
    let e = press('h', Modifiers::none(), 1);
    let got = keyevent_match_sync(&e, &init_state(), &vec![b]).unwrap();
    assert!(!got.consume());
    assert!(got.notify());
    let b = on('h').with_consume(true).with_notify(false);
    let got = keyevent_match_sync(&e, &init_state(), &vec![b]).unwrap();
    assert!(got.consume());
    assert!(!got.notify());
}

#[test]
fn match_against_registry_goes_by_its_snapshot() {
    let mut registry = BindingRegistry::new();
    let scoped = on('h').with_mode(Some(ScreenReaderMode::new("BrowseMode")));
    registry.register(on('h'), ScreenReaderEventType::Next(ElementType::Heading));
    registry.register(scoped.clone(), ScreenReaderEventType::Next(ElementType::Link));
    let e = press('h', Modifiers::none(), 1);
    let state = state_in("BrowseMode");
    let from_registry = keyevent_match(&e, &state, &registry);
    let from_snapshot = keyevent_match_sync(&e, &state, &registry.snapshot());
    assert_eq!(from_registry, Some(scoped));
    assert_eq!(from_registry, from_snapshot);
    let other = press('q', Modifiers::none(), 1);
    assert_eq!(keyevent_match(&other, &state, &registry), None);
}

#[test]
fn matches_states_the_four_rules() {
    let browse = ScreenReaderMode::new("BrowseMode");
    let focus = ScreenReaderMode::new("FocusMode");
    let b = on('f')
        .with_mods(Modifiers::only(Modifier::Odilia))
        .with_mode(Some(browse.clone()));
    let held = Modifiers::only(Modifier::Odilia);
    assert!(b.matches(&press('f', held, 1), &browse));
    assert!(!b.matches(&press('g', held, 1), &browse));
    assert!(!b.matches(&press('f', held, 2), &browse));
    assert!(!b.matches(&press('f', Modifiers::none(), 1), &browse));
    assert!(!b.matches(&press('f', held, 1), &focus));
}
