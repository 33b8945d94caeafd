use vstd::prelude::*;

verus! {

/// Row, in pixels, at which the first echoed key is shown (below the
/// prompt line).
pub const FIRST_ECHO_ROW: usize = 32;

/// A keyboard event as the echo loop sees it.
#[derive(Debug, Clone, Copy, PartialEq, Eq, Structural)]
pub enum Key {
    /// A key that produces a character.
    Printable(char),
    /// The escape key.
    Escape,
    /// No key, or a special key other than escape.
    Other,
}

/// What the echo loop asks its driver to do after a key.
#[derive(Debug, Clone, Copy, PartialEq, Eq, Structural)]
pub enum KeyAction {
    /// Show that key `ch` was pressed, on a text block at row `y`; then
    /// report the number of lines drawn with `KeyEcho::on_drawn`.
    ShowKey { ch: char, y: i32 },
    /// Show that escape was pressed at row `y`, and stop.
    ShowEscape { y: i32 },
    /// Nothing to do; wait for the next key.
    Ignore,
}

/// State of the keyboard echo loop: the row at which the next message goes,
/// and whether escape has ended the loop.
#[derive(Debug, Clone, Copy, PartialEq, Eq, Structural)]
pub struct KeyEcho {
    pub height: usize,
    pub done: bool,
}

impl KeyEcho {
    /// The loop before any key: messages start below the prompt line.
    pub fn new() -> (s: KeyEcho)
        ensures
            s.height == FIRST_ECHO_ROW,
            !s.done,
    {
        KeyEcho { height: FIRST_ECHO_ROW, done: false }
    }

    /// Decides what a key does. A printable key is shown at the current
    /// row; escape is shown at the current row and ends the loop; any other
    /// key is ignored and leaves the state as it was.
    pub fn on_key(&mut self, key: Key) -> (a: KeyAction)
        requires
            !old(self).done,
        ensures
            final(self).height == old(self).height,
            match key {
                Key::Printable(c) => a == KeyAction::ShowKey { ch: c, y: old(self).height as i32 }
                    && !final(self).done,
                Key::Escape => a == KeyAction::ShowEscape { y: old(self).height as i32 }
                    && final(self).done,
                Key::Other => a == KeyAction::Ignore && !final(self).done,
            },
    {
        match key {
            Key::Printable(c) => KeyAction::ShowKey { ch: c, y: self.height as i32 },
            Key::Escape => {
                self.done = true;
                KeyAction::ShowEscape { y: self.height as i32 }
            },
            Key::Other => KeyAction::Ignore,
        }
    }

    /// Moves the next message below a shown key message of `line_count`
    /// text lines of 32 pixels.
    pub fn on_drawn(&mut self, line_count: usize)
        requires
            old(self).height + line_count * 32 <= usize::MAX,
        ensures
            final(self).height == old(self).height + line_count * 32,
            final(self).done == old(self).done,
    {
        self.height = self.height + line_count * 32;
    }
}

} // verus!
