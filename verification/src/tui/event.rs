//! What the terminal reports, as far as the front end reads it.

use vstd::prelude::*;

verus! {

/// The key of a key event.
#[derive(Clone, Copy, Debug, PartialEq, Eq, Structural)]
pub enum KeyCode {
    Char(char),
    Backspace,
    Enter,
    Up,
    Down,
    /// Any other key.
    Other,
}

/// A key event: the key, whether the control and the alt keys were held, and
/// whether the key was pressed rather than released or repeated.
#[derive(Clone, Copy, Debug, PartialEq, Eq, Structural)]
pub struct KeyEvent {
    pub code: KeyCode,
    pub control: bool,
    pub alt: bool,
    pub pressed: bool,
}

/// An event of the terminal.
#[derive(Clone, Copy, Debug, PartialEq, Eq, Structural)]
pub enum Event {
    Key(KeyEvent),
    /// Any other event.
    Other,
}

} // verus!
