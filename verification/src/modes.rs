//! The operating mode of the screen reader.

use vstd::prelude::*;

verus! {

/// A named operating state, such as `"BrowseMode"` or `"FocusMode"`.
#[derive(Debug, PartialEq, Eq, Hash)]
pub struct ScreenReaderMode {
    pub name: String,
}

impl View for ScreenReaderMode {
    type V = Seq<char>;

    /// A mode is its name.
    open spec fn view(&self) -> Seq<char> {
        self.name@
    }
}

impl Clone for ScreenReaderMode {
    fn clone(&self) -> (res: Self)
        ensures
            res@ == self@,
    {
        ScreenReaderMode { name: self.name.clone() }
    }
}

impl ScreenReaderMode {
    /// The mode called `name`.
    pub fn new(name: &str) -> (res: Self)
        ensures
            res@ == name@,
    {
        ScreenReaderMode { name: name.to_owned() }
    }

    /// Whether two modes carry the same name.
    pub fn same_as(&self, other: &ScreenReaderMode) -> (res: bool)
        ensures
            res == (self@ == other@),
    {
        self.name == other.name
    }
}

} // verus!
