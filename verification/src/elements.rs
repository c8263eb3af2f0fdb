//! The kinds of element that structural navigation can look for.

use vstd::prelude::*;

verus! {

/// A kind of element of a document or a dialog.
#[derive(Clone, Copy, Debug, PartialEq, Eq, Hash, Structural)]
pub enum ElementType {
    Heading,
    HeadingLevel1,
    HeadingLevel2,
    HeadingLevel3,
    HeadingLevel4,
    HeadingLevel5,
    HeadingLevel6,
    Button,
    Text,
    Table,
    TableCell,
    List,
    ListItem,
    Video,
    Audio,
    Link,
    /// A tab of a dialog.
    Tab,
}

} // verus!
