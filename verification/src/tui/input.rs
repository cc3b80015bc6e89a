//! What the user does at the keyboard and with the mouse.

use vstd::prelude::*;

verus! {

#[derive(Hash, PartialEq, Eq, Structural, Clone, Copy, Debug)]
pub enum Key {
    // a, b, c, etc; or a non-ascii character, such as か
    Text(char),
    // arrows
    ArrowUp,
    ArrowDown,
    ArrowLeft,
    ArrowRight,
    // misc
    Escape,
    Delete,
    Backspace,
    PageUp,
    PageDown,
    Home,
    End,
}

impl Key {
    /// The name of a key that is no text: what stands for it where keys
    /// are written out.
    pub open spec fn spec_name(self) -> Option<Seq<char>> {
        match self {
            Key::Text(_) => None,
            Key::ArrowUp => Some("up"@),
            Key::ArrowDown => Some("down"@),
            Key::ArrowLeft => Some("left"@),
            Key::ArrowRight => Some("right"@),
            Key::Escape => Some("esc"@),
            Key::Delete => Some("delete"@),
            Key::Backspace => Some("backspace"@),
            Key::PageUp => Some("page-up"@),
            Key::PageDown => Some("page-down"@),
            Key::Home => Some("home"@),
            Key::End => Some("end"@),
        }
    }

    /// The name of a key that is no text; a key that is text is written
    /// out as its character.
    pub fn name(&self) -> (name: Option<&'static str>)
        ensures
            name is Some == self.spec_name() is Some,
            name is Some ==> name.unwrap()@ == self.spec_name().unwrap(),
    {
        match self {
            Key::Text(_) => None,
            Key::ArrowUp => Some("up"),
            Key::ArrowDown => Some("down"),
            Key::ArrowLeft => Some("left"),
            Key::ArrowRight => Some("right"),
            Key::Escape => Some("esc"),
            Key::Delete => Some("delete"),
            Key::Backspace => Some("backspace"),
            Key::PageUp => Some("page-up"),
            Key::PageDown => Some("page-down"),
            Key::Home => Some("home"),
            Key::End => Some("end"),
        }
    }

    /// The character of a key that is text.
    pub fn text(&self) -> (text: Option<char>)
        ensures
            text == (match *self {
                Key::Text(c) => Some(c),
                _ => None,
            }),
    {
        match self {
            Key::Text(c) => Some(*c),
            _ => None,
        }
    }
}

#[derive(Default, Hash, PartialEq, Eq, Clone, Copy, Debug)]
pub struct ModifierKeys {
    pub shift: bool,
    pub meta: bool,
    pub control: bool,
}

#[derive(Hash, PartialEq, Eq, Clone, Copy, Debug)]
pub enum ScrollDirection {
    /// Scroll so text that was previously off the top of the screen is now
    /// visible.
    Backwards,
    /// Scroll so text that was previously off the bottom of the screen is
    /// now visible.
    Forwards,
}

} // verus!
