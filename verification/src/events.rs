//! The closed set of things that a key binding can ask the screen reader to
//! do. Each names one action.

use crate::elements::ElementType;
use crate::modes::ScreenReaderMode;
use vstd::prelude::*;

verus! {

/// What an event type is.
pub enum EventTypeView {
    Next(ElementType),
    Previous(ElementType),
    ChangeMode(Seq<char>),
}

/// The name of an action of the screen reader.
#[derive(Debug, PartialEq, Eq, Hash)]
pub enum ScreenReaderEventType {
    /// Move focus to the next element of the given kind.
    Next(ElementType),
    /// Move focus to the previous element of the given kind.
    Previous(ElementType),
    /// Make the given mode the current one.
    ChangeMode(ScreenReaderMode),
}

impl View for ScreenReaderEventType {
    type V = EventTypeView;

    open spec fn view(&self) -> EventTypeView {
        match self {
            ScreenReaderEventType::Next(e) => EventTypeView::Next(*e),
            ScreenReaderEventType::Previous(e) => EventTypeView::Previous(*e),
            ScreenReaderEventType::ChangeMode(m) => EventTypeView::ChangeMode(m@),
        }
    }
}

impl Clone for ScreenReaderEventType {
    fn clone(&self) -> (res: Self)
        ensures
            res@ == self@,
    {
        match self {
            ScreenReaderEventType::Next(e) => ScreenReaderEventType::Next(*e),
            ScreenReaderEventType::Previous(e) => ScreenReaderEventType::Previous(*e),
            ScreenReaderEventType::ChangeMode(m) => ScreenReaderEventType::ChangeMode(m.clone()),
        }
    }
}

impl ScreenReaderEventType {
    /// Whether the two name the same action.
    pub fn same_as(&self, other: &ScreenReaderEventType) -> (res: bool)
        ensures
            res == (self@ == other@),
    {
        match (self, other) {
            (ScreenReaderEventType::Next(a), ScreenReaderEventType::Next(b)) => *a == *b,
            (ScreenReaderEventType::Previous(a), ScreenReaderEventType::Previous(b)) => *a == *b,
            (ScreenReaderEventType::ChangeMode(a), ScreenReaderEventType::ChangeMode(b)) => {
                a.same_as(b)
            },
            _ => false,
        }
    }
}

/// What an optional event type is.
pub open spec fn event_view(ev: Option<ScreenReaderEventType>) -> Option<EventTypeView> {
    match ev {
        Some(a) => Some(a@),
        None => None,
    }
}

} // verus!
