use odilia::modes::ScreenReaderMode;
use odilia::speech::{announcement, speak, speak_non_interrupt, Priority, SpeechRequest};
use odilia::state::{init_state, FocusRecord};

#[test]
fn initial_state_is_browse_mode_without_focus() {
    let state = init_state();
    assert_eq!(state.mode(), &ScreenReaderMode::new("BrowseMode"));
    assert_eq!(state.focus(), None);
    assert_eq!(state.mode.name, "BrowseMode");
}

#[test]
fn set_mode_replaces_the_mode_only() {
    let mut state = init_state();
    state.set_focus(Some(FocusRecord::new(":1.5", "/p")));
    state.set_mode(ScreenReaderMode::new("CommandMode"));
    assert_eq!(state.mode(), &ScreenReaderMode::new("CommandMode"));
    assert_eq!(state.focus(), Some(&FocusRecord::new(":1.5", "/p")));
}

#[test]
fn set_focus_replaces_the_focus_only() {
    let mut state = init_state();
    state.set_focus(Some(FocusRecord::new(":1.5", "/p")));
    state.set_focus(Some(FocusRecord::new(":1.6", "/q")));
    assert_eq!(state.focus(), Some(&FocusRecord::new(":1.6", "/q")));
    assert_eq!(state.mode(), &ScreenReaderMode::new("BrowseMode"));
    state.set_focus(None);
    assert_eq!(state.focus(), None);
}

#[test]
fn focus_records_compare_by_sender_and_path() {
    let a = FocusRecord::new(":1.5", "/p");
    assert!(a.same_as(&FocusRecord::new(":1.5", "/p")));
    assert!(!a.same_as(&FocusRecord::new(":1.6", "/p")));
    assert!(!a.same_as(&FocusRecord::new(":1.5", "/q")));
    assert_eq!(a.sender, ":1.5");
    assert_eq!(a.path, "/p");
    assert_eq!(a.clone(), a);
}

#[test]
fn speak_interrupts_with_message_priority() {
    assert_eq!(
        speak("hello"),
        SpeechRequest { cancel_first: true, priority: Priority::Message, text: String::from("hello") }
    );
}

#[test]
fn speak_non_interrupt_keeps_what_is_said() {
    assert_eq!(
        speak_non_interrupt("welcome to odilia!"),
        SpeechRequest {
            cancel_first: false,
            priority: Priority::Text,
            text: String::from("welcome to odilia!"),
        }
    );
}

#[test]
fn announcement_is_name_comma_space_role() {
    assert_eq!(announcement("Inbox", "link"), "Inbox, link");
    assert_eq!(announcement("", ""), ", ");
    assert_eq!(announcement("Über uns", "Überschrift"), "Über uns, Überschrift");
}

#[test]
fn only_the_two_highest_priorities_interrupt() {
    assert!(Priority::Important.interrupts());
    assert!(Priority::Message.interrupts());
    assert!(!Priority::Text.interrupts());
    assert!(!Priority::Notification.interrupts());
    assert!(!Priority::Progress.interrupts());
}

#[test]
fn speak_asks_for_an_interrupting_level_and_speak_non_interrupt_does_not() {
    let loud = speak("stop");
    assert!(loud.cancel_first);
    assert!(loud.priority.interrupts());
    let quiet = speak_non_interrupt("by the way");
    assert!(!quiet.cancel_first);
    assert!(!quiet.priority.interrupts());
    assert_eq!(quiet.text, "by the way");
}
