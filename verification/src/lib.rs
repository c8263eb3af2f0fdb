//! Input layer of a screen reader: key bindings, the operating mode that gates
//! them, and the record of the element that currently has focus.

pub mod dispatch;
pub mod elements;
pub mod events;
pub mod input;
pub mod keybinds;
pub mod listener;
pub mod modes;
pub mod registry;
pub mod speech;
pub mod state;
