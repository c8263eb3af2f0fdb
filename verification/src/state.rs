//! The state that the two listeners share: the current mode and the record of
//! the element that has focus.

use crate::modes::ScreenReaderMode;
use vstd::prelude::*;

verus! {

/// What a focus record is: the bus address of the application and the path
/// of the element in it.
pub struct FocusRecordView {
    pub sender: Seq<char>,
    pub path: Seq<char>,
}

/// A reference to an element of the accessibility tree. It is a key by which
/// the element is looked up on the bus, and holds nothing of the element.
#[derive(Debug, PartialEq, Eq, Hash)]
pub struct FocusRecord {
    pub sender: String,
    pub path: String,
}

impl View for FocusRecord {
    type V = FocusRecordView;

    open spec fn view(&self) -> FocusRecordView {
        FocusRecordView { sender: self.sender@, path: self.path@ }
    }
}

impl Clone for FocusRecord {
    fn clone(&self) -> (res: Self)
        ensures
            res@ == self@,
    {
        FocusRecord { sender: self.sender.clone(), path: self.path.clone() }
    }
}

impl FocusRecord {
    /// The record of the element at `path` in the application at `sender`.
    pub fn new(sender: &str, path: &str) -> (res: FocusRecord)
        ensures
            res@ == (FocusRecordView { sender: sender@, path: path@ }),
    {
        FocusRecord { sender: sender.to_owned(), path: path.to_owned() }
    }

    /// Whether the two records refer to the same element.
    pub fn same_as(&self, other: &FocusRecord) -> (res: bool)
        ensures
            res == (self@ == other@),
    {
        self.sender == other.sender && self.path == other.path
    }
}

/// The record that an optional focus holds.
pub open spec fn focus_view(focus: Option<FocusRecord>) -> Option<FocusRecordView> {
    match focus {
        Some(f) => Some(f@),
        None => None,
    }
}

/// What the shared state is: the name of the current mode, and the focused
/// element if there is one.
pub struct StateView {
    pub mode: Seq<char>,
    pub focus: Option<FocusRecordView>,
}

/// The name of the mode in which the screen reader starts.
pub open spec fn initial_mode() -> Seq<char> {
    "BrowseMode"@
}

/// The state in which the screen reader starts: browse mode, nothing focused.
pub open spec fn initial_state() -> StateView {
    StateView { mode: initial_mode(), focus: None }
}

/// All the state of the screen reader that its listeners and actions share.
/// There is one current mode at any time; the focus is absent or is the
/// element that was focused last.
#[derive(Debug, PartialEq, Eq)]
pub struct ScreenReaderState {
    /// The current mode.
    pub mode: ScreenReaderMode,
    /// The element that has focus, if any is known.
    pub focus: Option<FocusRecord>,
}

impl View for ScreenReaderState {
    type V = StateView;

    open spec fn view(&self) -> StateView {
        StateView { mode: self.mode@, focus: focus_view(self.focus) }
    }
}

impl Clone for ScreenReaderState {
    fn clone(&self) -> (res: Self)
        ensures
            res@ == self@,
    {
        let focus = match &self.focus {
            Some(f) => Some(f.clone()),
            None => None,
        };
        ScreenReaderState { mode: self.mode.clone(), focus }
    }
}

/// The state in which the screen reader starts.
pub fn init_state() -> (res: ScreenReaderState)
    ensures
        res@ == initial_state(),
{
    ScreenReaderState { mode: ScreenReaderMode::new("BrowseMode"), focus: None }
}

impl ScreenReaderState {
    /// The current mode.
    pub fn mode(&self) -> (res: &ScreenReaderMode)
        ensures
            res@ == self@.mode,
    {
        &self.mode
    }

    /// Replaces the current mode by `mode`; the focus stays.
    pub fn set_mode(&mut self, mode: ScreenReaderMode)
        ensures
            final(self)@ == (StateView { mode: mode@, ..old(self)@ }),
    {
        self.mode = mode;
    }

    /// The element that has focus, if any is known.
    pub fn focus(&self) -> (res: Option<&FocusRecord>)
        ensures
            res is Some <==> self@.focus is Some,
            res matches Some(f) ==> self@.focus == Some(f@),
    {
        self.focus.as_ref()
    }

    /// Replaces the focus by `focus` as a whole; the mode stays.
    pub fn set_focus(&mut self, focus: Option<FocusRecord>)
        ensures
            final(self)@ == (StateView { focus: focus_view(focus), ..old(self)@ }),
    {
        self.focus = focus;
    }
}

} // verus!
