//! A checkbox with a label.

use crate::datatypes::arenavec::Error;
use crate::datatypes::uniq::UniqKey;
use crate::tui::colour::Colour;
use crate::tui::shapes::Shape;
use crate::tui::terminal::{
    append_bytes, append_placed, colour_bytes, encode_char, fg_sequence, has_button, holds, placed,
    Terminal,
};
use crate::tui::text_style::TextStyleFlags;
use crate::tui::widgets::text::{clamped_sum, HorizontalOverflowStyle, Text, VerticalOverflowStyle};
use crate::tui::widgets::{Frame, HAlign, VAlign};
use vstd::prelude::*;
use vstd::utf8::encode_scalar;

verus! {

/// What a checkbox remembers from frame to frame.
#[derive(Clone, Copy, Debug, PartialEq, Eq)]
pub struct CheckboxCache {
    pub checked: bool,
    pub mouse_held: bool,
}

impl Default for CheckboxCache {
    fn default() -> (cache: Self)
        ensures
            cache == (CheckboxCache { checked: false, mouse_held: false }),
    {
        Self { checked: false, mouse_held: false }
    }
}

impl CheckboxCache {
    /// What the checkbox remembers after a frame in which it was `clicked`
    /// or not: a click that starts over the checkbox flips it once, however
    /// long the mouse button is held.
    pub open spec fn spec_after(self, clicked: bool) -> CheckboxCache {
        if clicked {
            if self.mouse_held {
                self
            } else {
                CheckboxCache { checked: !self.checked, mouse_held: true }
            }
        } else {
            CheckboxCache { checked: self.checked, mouse_held: false }
        }
    }

    /// Takes one frame into account, in which the checkbox was `clicked` or
    /// not.
    pub fn update(&mut self, clicked: bool)
        ensures
            *final(self) == old(self).spec_after(clicked),
    {
        if clicked {
            if !self.mouse_held {
                self.checked = !self.checked;
                self.mouse_held = true;
            }
        } else {
            self.mouse_held = false;
        }
    }

    /// The cache as the two bytes under which a store keeps it.
    pub fn to_bytes(&self) -> (bytes: [u8; 2])
        ensures
            bytes@ == seq![
                if self.checked {
                    1u8
                } else {
                    0u8
                },
                if self.mouse_held {
                    1u8
                } else {
                    0u8
                },
            ],
    {
        [
            if self.checked {
                1
            } else {
                0
            },
            if self.mouse_held {
                1
            } else {
                0
            },
        ]
    }

    /// The cache that a store keeps as `bytes`; a fresh one where the store
    /// keeps less than two bytes.
    pub fn from_bytes(bytes: &[u8]) -> (cache: Self)
        ensures
            cache == (if bytes@.len() >= 2 {
                CheckboxCache { checked: bytes@[0] != 0, mouse_held: bytes@[1] != 0 }
            } else {
                CheckboxCache { checked: false, mouse_held: false }
            }),
    {
        if bytes.len() >= 2 {
            Self { checked: bytes[0] != 0, mouse_held: bytes[1] != 0 }
        } else {
            Self { checked: false, mouse_held: false }
        }
    }
}

pub struct Checkbox<'a> {
    pub label: &'a str,
    pub cache_key: UniqKey,
    pub frame: Frame,
    pub checked_char: char,
    pub unchecked_char: char,
    pub text_colour: Option<Colour>,
}

impl<'a> Checkbox<'a> {
    pub fn new(label: &'a str, cache_key: UniqKey) -> (checkbox: Self)
        ensures
            checkbox.label == label,
            checkbox.cache_key == cache_key,
            checkbox.frame == (Frame { x: 0, y: 0, width: 10, height: 1 }),
            checkbox.checked_char == '🗹',
            checkbox.unchecked_char == '☐',
            checkbox.text_colour is None,
    {
        Self {
            label,
            cache_key,
            frame: Frame { x: 0, y: 0, width: 10, height: 1 },
            checked_char: '🗹',
            unchecked_char: '☐',
            text_colour: None,
        }
    }

    pub fn label(self, label: &'a str) -> (checkbox: Self)
        ensures
            checkbox == (Checkbox { label, ..self }),
    {
        let mut checkbox = self;
        checkbox.label = label;
        checkbox
    }

    pub fn checked_char(self, char: char) -> (checkbox: Self)
        ensures
            checkbox == (Checkbox { checked_char: char, ..self }),
    {
        let mut checkbox = self;
        checkbox.checked_char = char;
        checkbox
    }

    pub fn unchecked_char(self, char: char) -> (checkbox: Self)
        ensures
            checkbox == (Checkbox { unchecked_char: char, ..self }),
    {
        let mut checkbox = self;
        checkbox.unchecked_char = char;
        checkbox
    }

    pub fn text_colour(self, colour: Option<Colour>) -> (checkbox: Self)
        ensures
            checkbox == (Checkbox { text_colour: colour, ..self }),
    {
        let mut checkbox = self;
        checkbox.text_colour = colour;
        checkbox
    }

    /// The character that shows whether the checkbox is checked.
    pub fn figure(&self, checked: bool) -> (figure: char)
        ensures
            figure == (if checked {
                self.checked_char
            } else {
                self.unchecked_char
            }),
    {
        if checked {
            self.checked_char
        } else {
            self.unchecked_char
        }
    }
}

pub struct CheckboxOut {
    pub checked: bool,
}

impl<'a> Checkbox<'a> {
    /// The label of the checkbox as the text that is drawn: two columns
    /// behind the box, in one row, cut with a character that shows it
    /// where it is too long.
    pub open spec fn spec_label(&self) -> Text<'a> {
        Text {
            text: self.label,
            frame: Frame {
                x: clamped_sum(self.frame.x, 2),
                y: self.frame.y,
                width: if self.frame.width >= 2 {
                    (self.frame.width - 2) as u16
                } else {
                    0u16
                },
                height: 1,
            },
            text_colour: None,
            background_colour: None,
            vertical_anchor: VAlign::Center,
            vertical_overflow: VerticalOverflowStyle::Clip,
            horizontal_anchor: HAlign::Left,
            horizontal_overflow: HorizontalOverflowStyle::ClipWithChar('…'),
            style: TextStyleFlags(0),
        }
    }

    /// The bytes that draw the checkbox, checked or not: nothing for a
    /// checkbox without a width; else the box in the colour of the text,
    /// and the label where the checkbox is wider than two columns.
    pub open spec fn spec_bytes(&self, checked: bool) -> Seq<u8> {
        if self.frame.width > 0 {
            fg_sequence(self.text_colour) + placed(
                encode_scalar(
                    (if checked {
                        self.checked_char
                    } else {
                        self.unchecked_char
                    }) as u32,
                ),
                self.frame.x,
                self.frame.y,
            ) + (if self.frame.width > 2 {
                self.spec_label().spec_bytes()
            } else {
                Seq::empty()
            })
        } else {
            Seq::empty()
        }
    }

    /// The bytes that draw the checkbox, checked or not.
    pub fn bytes(&self, checked: bool) -> (bytes: Vec<u8>)
        ensures
            bytes@ == self.spec_bytes(checked),
    {
        let mut bytes: Vec<u8> = Vec::new();
        if self.frame.width > 0 {
            let colour = colour_bytes(38, self.text_colour);
            append_bytes(&mut bytes, colour.as_slice());
            append_placed(
                &mut bytes,
                encode_char(self.figure(checked)).as_slice(),
                self.frame.x,
                self.frame.y,
            );
            if self.frame.width > 2 {
                let label = Text {
                    text: self.label,
                    frame: Frame {
                        x: self.frame.x.saturating_add(2),
                        y: self.frame.y,
                        width: self.frame.width.saturating_sub(2),
                        height: 1,
                    },
                    text_colour: None,
                    background_colour: None,
                    vertical_anchor: VAlign::Center,
                    vertical_overflow: VerticalOverflowStyle::Clip,
                    horizontal_anchor: HAlign::Left,
                    horizontal_overflow: HorizontalOverflowStyle::ClipWithChar('…'),
                    style: TextStyleFlags(0),
                };
                let drawn = label.bytes();
                append_bytes(&mut bytes, drawn.as_slice());
            }
        }
        proof {
            assert(bytes@ =~= self.spec_bytes(checked));
        }
        bytes
    }

    /// Whether the mouse is over the checkbox.
    pub fn hovered(&self, terminal: &Terminal) -> (hovered: bool)
        ensures
            hovered == self.frame.spec_contains(terminal.mouse_pos),
    {
        self.frame.contains(terminal.mouse_pos)
    }

    /// Whether the left mouse button is held over the checkbox.
    pub fn clicked(&self, terminal: &Terminal) -> (clicked: bool)
        ensures
            clicked == (holds(terminal.held_mouse_buttons@, 0) && self.frame.spec_contains(
                terminal.mouse_pos,
            )),
    {
        has_button(&terminal.held_mouse_buttons, 0) && self.frame.contains(terminal.mouse_pos)
    }

    /// Takes the frame into account in which the checkbox is drawn, draws
    /// it, and says whether it is checked; or reports that the output
    /// buffer cannot take the checkbox and draws nothing of it. What the
    /// checkbox remembers is brought up to date either way.
    pub fn draw(&self, cache: &mut CheckboxCache, terminal: &mut Terminal) -> (r: Result<
        CheckboxOut,
        Error,
    >)
        requires
            old(terminal).wf(),
        ensures
            final(terminal).wf(),
            *final(cache) == old(cache).spec_after(
                holds(old(terminal).held_mouse_buttons@, 0) && self.frame.spec_contains(
                    old(terminal).mouse_pos,
                ),
            ),
            old(terminal).wrote(
                *final(terminal),
                match r {
                    Ok(_) => Ok(()),
                    Err(e) => Err(e),
                },
                self.spec_bytes(final(cache).checked),
            ),
            r matches Ok(out) ==> out.checked == final(cache).checked,
    {
        let clicked = self.clicked(terminal);
        cache.update(clicked);
        let bytes = self.bytes(cache.checked);
        match terminal.try_write(bytes.as_slice()) {
            Ok(()) => Ok(CheckboxOut { checked: cache.checked }),
            Err(e) => Err(e),
        }
    }
}

} // verus!
