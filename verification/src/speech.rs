//! What is said, and how urgently: the requests that the screen reader makes
//! of its speech engine.

use vstd::prelude::*;

verus! {

/// How urgent an utterance is, from most to least. The two highest levels
/// interrupt: an utterance at one of them cuts off what is being said. The
/// others wait their turn.
#[derive(Clone, Copy, Debug, PartialEq, Eq, Hash, Structural)]
pub enum Priority {
    Important,
    Message,
    Text,
    Notification,
    Progress,
}

impl Priority {
    /// Whether an utterance at this level cuts off what is being said.
    pub open spec fn is_interrupting(self) -> bool {
        self is Important || self is Message
    }

    /// Whether an utterance at this level cuts off what is being said.
    pub fn interrupts(self) -> (res: bool)
        ensures
            res == self.is_interrupting(),
    {
        match self {
            Priority::Important | Priority::Message => true,
            Priority::Text | Priority::Notification | Priority::Progress => false,
        }
    }
}

/// What a speech request is.
pub struct SpeechRequestView {
    pub cancel_first: bool,
    pub priority: Priority,
    pub text: Seq<char>,
}

/// One request to the speech engine: say `text` at `priority`, after
/// cancelling what is being said where `cancel_first` is set.
#[derive(Debug, PartialEq, Eq, Hash)]
pub struct SpeechRequest {
    pub cancel_first: bool,
    pub priority: Priority,
    pub text: String,
}

impl View for SpeechRequest {
    type V = SpeechRequestView;

    open spec fn view(&self) -> SpeechRequestView {
        SpeechRequestView {
            cancel_first: self.cancel_first,
            priority: self.priority,
            text: self.text@,
        }
    }
}

impl Clone for SpeechRequest {
    fn clone(&self) -> (res: Self)
        ensures
            res@ == self@,
    {
        SpeechRequest {
            cancel_first: self.cancel_first,
            priority: self.priority,
            text: self.text.clone(),
        }
    }
}

/// The request that interrupts: whatever is being said is cancelled, then
/// `text` is said as a message, which is an interrupting level.
pub open spec fn interrupting(text: Seq<char>) -> SpeechRequestView {
    SpeechRequestView { cancel_first: true, priority: Priority::Message, text }
}

/// The request that does not interrupt: nothing is cancelled, and `text` is
/// said as plain text, which is no interrupting level. What is being said is
/// heard to its end.
pub open spec fn non_interrupting(text: Seq<char>) -> SpeechRequestView {
    SpeechRequestView { cancel_first: false, priority: Priority::Text, text }
}

/// A request cuts off prior speech exactly when it cancels first or asks
/// for an interrupting level.
pub open spec fn cuts_off_speech(request: SpeechRequestView) -> bool {
    request.cancel_first || request.priority.is_interrupting()
}

/// The interrupting request cuts off prior speech, by cancelling and by its
/// level; the non-interrupting request does neither. Both say the text they
/// were given.
pub proof fn lemma_requests_keep_their_word(text: Seq<char>)
    ensures
        interrupting(text).cancel_first,
        interrupting(text).priority.is_interrupting(),
        cuts_off_speech(interrupting(text)),
        !non_interrupting(text).cancel_first,
        !non_interrupting(text).priority.is_interrupting(),
        !cuts_off_speech(non_interrupting(text)),
        interrupting(text).text == text,
        non_interrupting(text).text == text,
{
}

/// The words for an element: its name, a comma and a space, its role.
pub open spec fn announcement_text(name: Seq<char>, role: Seq<char>) -> Seq<char> {
    name + seq![',', ' '] + role
}

/// The request to say `text` at once, cutting off what is being said.
pub fn speak(text: &str) -> (res: SpeechRequest)
    ensures
        res@ == interrupting(text@),
        cuts_off_speech(res@),
{
    SpeechRequest { cancel_first: true, priority: Priority::Message, text: text.to_owned() }
}

/// The request to say `text` without cutting off what is being said: it
/// cancels nothing and asks for a level that does not interrupt.
pub fn speak_non_interrupt(text: &str) -> (res: SpeechRequest)
    ensures
        res@ == non_interrupting(text@),
        !cuts_off_speech(res@),
{
    SpeechRequest { cancel_first: false, priority: Priority::Text, text: text.to_owned() }
}

/// The words that announce an element with the given name and role.
pub fn announcement(name: &str, role: &str) -> (res: String)
    ensures
        res@ == announcement_text(name@, role@),
{
    let mut text = name.to_owned();
    text.append(", ");
    text.append(role);
    proof {
        reveal_strlit(", ");
        assert(", "@ =~= seq![',', ' ']);
    }
    text
}

} // verus!
