//! Input the screens understand, independent of any terminal library.

use vstd::prelude::*;

verus! {

/// One key press, as the screens read it.
#[derive(Debug, Clone, Copy, PartialEq, Eq, Structural)]
pub enum Key {
    Char(char),
    Ctrl(char),
    Enter,
    Esc,
    Backspace,
    Tab,
    BackTab,
    Up,
    Down,
    PageUp,
    PageDown,
    Home,
    End,
    Left,
    Right,
}

impl Key {
    /// A character pressed with control held. Terminals report the letter in either case
    /// depending on shift, and the screens bind the small one, so the letter is folded.
    pub fn ctrl(c: char) -> (r: Key)
        ensures
            r == Key::Ctrl(crate::ascii::fold(c)),
    {
        Key::Ctrl(crate::ascii::fold_char(c))
    }
}

} // verus!
