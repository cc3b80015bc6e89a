//! Widgets: what an application draws in the terminal, and where.

pub mod api;
pub mod button;
pub mod checkbox;
pub mod text;
pub mod textinput;

pub use api::{TextHorizontalAlign, TextVerticalAlign, WidgetState};
pub use button::{Button, ButtonOut, ButtonState};
pub use checkbox::{Checkbox, CheckboxOut};
pub use text::{HorizontalOverflowStyle, Text, VerticalOverflowStyle};
pub use textinput::{TextInput, TextInputCache, TextInputOut};

use vstd::prelude::*;

verus! {

/// A rectangular area in the terminal. This is generally used for widget
/// positioning.
#[derive(Clone, Copy, Debug, PartialEq, Eq)]
pub struct Frame {
    pub x: u16,
    pub y: u16,
    pub width: u16,
    pub height: u16,
}

impl Frame {
    /// Whether the frame contains the point `pos`: the point lies on or
    /// behind the left and the upper edge, and in front of the right and
    /// the lower one.
    pub open spec fn spec_contains(&self, pos: (u16, u16)) -> bool {
        &&& self.x <= pos.0 < self.x + self.width
        &&& self.y <= pos.1 < self.y + self.height
    }

    /// Check if this [`Frame`] contains the given `(x, y)` point.
    pub fn contains(&self, pos: (u16, u16)) -> (inside: bool)
        ensures
            inside == self.spec_contains(pos),
    {
        let (x, y) = pos;
        x >= self.x && y >= self.y && (x as u32) < self.x as u32 + self.width as u32 && (y as u32)
            < self.y as u32 + self.height as u32
    }
}

/// Vertical alignment values.
#[derive(Clone, Copy, PartialEq, Eq, Hash, Debug)]
pub enum VAlign {
    Top,
    Center,
    Bottom,
}

impl Default for VAlign {
    fn default() -> (align: Self)
        ensures
            align == VAlign::Center,
    {
        Self::Center
    }
}

/// Horizontal alignment values.
#[derive(Clone, Copy, PartialEq, Eq, Hash, Debug)]
pub enum HAlign {
    Left,
    Center,
    Right,
}

impl Default for HAlign {
    fn default() -> (align: Self)
        ensures
            align == HAlign::Center,
    {
        Self::Center
    }
}

} // verus!
