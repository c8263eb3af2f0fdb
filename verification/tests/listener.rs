use odilia::dispatch::perform;
use odilia::elements::ElementType;
use odilia::events::ScreenReaderEventType;
use odilia::input::{Key, KeyBinding, KeyEvent, Modifier, Modifiers};
use odilia::listener::{handle_focus_event, handle_key_event, KeyOutcome};
use odilia::modes::ScreenReaderMode;
use odilia::registry::BindingRegistry;
use odilia::speech::{Priority, SpeechRequest};
use odilia::state::{init_state, FocusRecord};

fn typed(c: char) -> KeyEvent {
    KeyEvent::new(Key::Other(c), Modifiers::none(), 1).unwrap()
}

fn binding_for(c: char) -> KeyBinding {
    KeyBinding::new(Some(Key::Other(c)))
}

#[test]
fn next_heading_is_dispatched_exactly_once() {
    let binding = KeyBinding::new(Some(Key::Other('h')));
    let mut registry = BindingRegistry::new();
    registry.register(binding.clone(), ScreenReaderEventType::Next(ElementType::Heading));
    let state = init_state();
    assert_eq!(state.mode(), &ScreenReaderMode::new("BrowseMode"));

    let mut started: Vec<ScreenReaderEventType> = Vec::new();
    let outcome = handle_key_event(&typed('h'), &state, &registry);
    assert_eq!(outcome.matched, Some(binding));
    if let Some(action) = outcome.dispatched {
        started.push(action);
    }
    assert_eq!(started, vec![ScreenReaderEventType::Next(ElementType::Heading)]);
}

#[test]
fn no_match_passes_the_keystroke_through() {
    let mut registry = BindingRegistry::new();
    registry.register(binding_for('h'), ScreenReaderEventType::Next(ElementType::Heading));
    let outcome = handle_key_event(&typed('x'), &init_state(), &registry);
    assert_eq!(
        outcome,
        KeyOutcome { consume: false, notify: false, matched: None, dispatched: None }
    );
    let outcome = handle_key_event(&typed('x'), &init_state(), &BindingRegistry::new());
    assert_eq!(
        outcome,
        KeyOutcome { consume: false, notify: false, matched: None, dispatched: None }
    );
}

#[test]
fn consume_and_notify_are_independent() {
    let state = init_state();
    for (consume, notify) in [(false, false), (false, true), (true, false), (true, true)] {
        let binding = binding_for('h').with_consume(consume).with_notify(notify);
        let mut registry = BindingRegistry::new();
        registry.register(binding.clone(), ScreenReaderEventType::Next(ElementType::Heading));
        let outcome = handle_key_event(&typed('h'), &state, &registry);
        assert_eq!(outcome.consume, consume);
        assert_eq!(outcome.notify, notify);
        assert_eq!(outcome.matched, Some(binding));
        let expected = if notify {
            Some(ScreenReaderEventType::Next(ElementType::Heading))
        } else {
            None
        };
        assert_eq!(outcome.dispatched, expected);
    }
}

#[test]
fn consumed_modifier_key_is_not_dispatched() {
    let caps = KeyBinding::new(None)
        .with_mods(Modifiers::only(Modifier::Odilia))
        .with_consume(true)
        .with_notify(false);
    let mut registry = BindingRegistry::new();
    registry.register(caps, ScreenReaderEventType::Next(ElementType::Heading));
    let e = KeyEvent::new(Key::Other('q'), Modifiers::only(Modifier::Odilia), 1).unwrap();
    let outcome = handle_key_event(&e, &init_state(), &registry);
    assert!(outcome.consume);
    assert!(!outcome.notify);
    assert_eq!(outcome.dispatched, None);
}

#[test]
fn dispatched_mode_change_gates_the_next_key() {
    let to_focus = binding_for('a').with_mods(Modifiers::only(Modifier::Odilia));
    let in_focus = binding_for('h').with_mode(Some(ScreenReaderMode::new("FocusMode")));
    let in_browse = binding_for('h').with_mode(Some(ScreenReaderMode::new("BrowseMode")));
    let mut registry = BindingRegistry::new();
    registry.register(
        to_focus,
        ScreenReaderEventType::ChangeMode(ScreenReaderMode::new("FocusMode")),
    );
    registry.register(in_browse.clone(), ScreenReaderEventType::Next(ElementType::Heading));
    registry.register(in_focus.clone(), ScreenReaderEventType::Next(ElementType::Link));
    let mut state = init_state();

    let before = handle_key_event(&typed('h'), &state, &registry);
    assert_eq!(before.matched, Some(in_browse));

    let e = KeyEvent::new(Key::Other('a'), Modifiers::only(Modifier::Odilia), 1).unwrap();
    let outcome = handle_key_event(&e, &state, &registry);
    let action = outcome.dispatched.unwrap();
    perform(&mut state, &action);

    let after = handle_key_event(&typed('h'), &state, &registry);
    assert_eq!(after.matched, Some(in_focus));
    assert_eq!(after.dispatched, Some(ScreenReaderEventType::Next(ElementType::Link)));
}

#[test]
fn focus_is_the_element_focused_last() {
    let x = FocusRecord::new(":1.42", "/org/a11y/atspi/accessible/10");
    let y = FocusRecord::new(":1.42", "/org/a11y/atspi/accessible/11");
    let mut state = init_state();
    let said_x = handle_focus_event(
        &mut state,
        x.clone(),
        Some(String::from("A very long paragraph that takes a long time to read out")),
        Some(String::from("paragraph")),
    );
    let said_y =
        handle_focus_event(&mut state, y.clone(), Some(String::from("OK")), Some(String::from("button")));
    assert!(said_x.is_some());
    assert!(said_y.is_some());
    assert_eq!(state.focus(), Some(&y));
    assert_ne!(state.focus(), Some(&x));
    assert_eq!(state.mode(), &ScreenReaderMode::new("BrowseMode"));
}

#[test]
fn focus_change_says_name_and_role_at_once() {
    let mut state = init_state();
    let said = handle_focus_event(
        &mut state,
        FocusRecord::new(":1.3", "/a"),
        Some(String::from("Save")),
        Some(String::from("push button")),
    );
    assert_eq!(
        said,
        Some(SpeechRequest {
            cancel_first: true,
            priority: Priority::Message,
            text: String::from("Save, push button"),
        })
    );
}

#[test]
fn missing_name_or_role_skips_speech_but_moves_focus() {
    let cases: Vec<(Option<String>, Option<String>)> = vec![
        (None, Some(String::from("button"))),
        (Some(String::from("OK")), None),
        (None, None),
    ];
    for (i, (name, role)) in cases.into_iter().enumerate() {
        let mut state = init_state();
        let element = FocusRecord::new(":1.3", &format!("/element/{}", i));
        let said = handle_focus_event(&mut state, element.clone(), name, role);
        assert_eq!(said, None);
        assert_eq!(state.focus(), Some(&element));
    }
}

#[test]
fn empty_name_is_still_said() {
    let mut state = init_state();
    let said = handle_focus_event(
        &mut state,
        FocusRecord::new(":1.3", "/a"),
        Some(String::new()),
        Some(String::from("panel")),
    );
    assert_eq!(said.map(|s| s.text), Some(String::from(", panel")));
}
