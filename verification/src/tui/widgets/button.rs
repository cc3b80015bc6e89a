//! A clickable button.

use crate::datatypes::arenavec::Error;
use crate::tui::colour::Colour;
use crate::tui::shapes::{Border, BorderStyle, Shape};
use crate::tui::terminal::{
    append_bytes, bg_sequence, colour_bytes, fg_sequence, has_button, holds, Terminal,
};
use crate::tui::text_style::TextStyleFlags;
use crate::tui::widgets::text::{HorizontalOverflowStyle, Text, VerticalOverflowStyle};
use crate::tui::widgets::{Frame, HAlign, VAlign};
use vstd::prelude::*;

verus! {

#[derive(Debug, Clone, Copy, PartialEq, Eq)]
pub struct ButtonOut {
    /// The current state of the button.
    pub state: ButtonState,
    /// The mouse cursor is over the button.
    pub hovered: bool,
}

#[derive(PartialEq, Eq, Hash, Clone, Copy, Debug)]
pub enum ButtonState {
    /// The mouse has just clicked on the button.
    Pressed,
    /// The mouse has been clicking the button for multiple frames.
    Held,
    /// The mouse just released the button.
    Released,
    /// The mouse is hovering over the button, but hasn't interacted with
    /// it.
    Hovered,
    /// The mouse isn't interacting with the button.
    Inactive,
}

impl Default for ButtonState {
    fn default() -> (state: Self)
        ensures
            state == ButtonState::Inactive,
    {
        Self::Inactive
    }
}

pub struct Button<'a> {
    pub label: &'a str,
    pub border_style: Option<BorderStyle>,
    pub background_colour: Option<Colour>,
    pub border_colour: Option<Colour>,
    pub text_colour: Option<Colour>,
    pub frame: Frame,
}

/// The state of a button under a mouse: what the left mouse button does to
/// a button that the mouse is over, and `Inactive` for any other.
pub open spec fn button_state(hovered: bool, clicked: bool, held: bool, released: bool) -> ButtonState {
    if !hovered {
        ButtonState::Inactive
    } else if clicked {
        ButtonState::Pressed
    } else if held {
        ButtonState::Held
    } else if released {
        ButtonState::Released
    } else {
        ButtonState::Hovered
    }
}

impl<'a> Button<'a> {
    pub fn new(label: &'a str) -> (button: Self)
        ensures
            button.label == label,
            button.border_style == Some(BorderStyle::round()),
            button.border_colour is None,
            button.text_colour is None,
            button.background_colour is None,
            button.frame == (Frame { x: 0, y: 0, width: 8, height: 3 }),
    {
        Self {
            label,
            border_style: Some(BorderStyle::round()),
            border_colour: None,
            text_colour: None,
            background_colour: None,
            frame: Frame { x: 0, y: 0, width: 8, height: 3 },
        }
    }

    pub fn label(self, label: &'a str) -> (button: Self)
        ensures
            button == (Button { label, ..self }),
    {
        let mut button = self;
        button.label = label;
        button
    }

    pub fn border(self, style: Option<BorderStyle>) -> (button: Self)
        ensures
            button == (Button { border_style: style, ..self }),
    {
        let mut button = self;
        button.border_style = style;
        button
    }

    pub fn x(self, x: u16) -> (button: Self)
        ensures
            button == (Button { frame: Frame { x, ..self.frame }, ..self }),
    {
        let mut button = self;
        button.frame.x = x;
        button
    }

    pub fn y(self, y: u16) -> (button: Self)
        ensures
            button == (Button { frame: Frame { y, ..self.frame }, ..self }),
    {
        let mut button = self;
        button.frame.y = y;
        button
    }

    pub fn width(self, width: u16) -> (button: Self)
        ensures
            button == (Button { frame: Frame { width, ..self.frame }, ..self }),
    {
        let mut button = self;
        button.frame.width = width;
        button
    }

    pub fn height(self, height: u16) -> (button: Self)
        ensures
            button == (Button { frame: Frame { height, ..self.frame }, ..self }),
    {
        let mut button = self;
        button.frame.height = height;
        button
    }

    pub fn frame(self, frame: Frame) -> (button: Self)
        ensures
            button == (Button { frame, ..self }),
    {
        let mut button = self;
        button.frame = frame;
        button
    }

    pub fn text_colour(self, colour: Option<Colour>) -> (button: Self)
        ensures
            button == (Button { text_colour: colour, ..self }),
    {
        let mut button = self;
        button.text_colour = colour;
        button
    }

    pub fn border_colour(self, colour: Option<Colour>) -> (button: Self)
        ensures
            button == (Button { border_colour: colour, ..self }),
    {
        let mut button = self;
        button.border_colour = colour;
        button
    }

    pub fn background_colour(self, colour: Option<Colour>) -> (button: Self)
        ensures
            button == (Button { background_colour: colour, ..self }),
    {
        let mut button = self;
        button.background_colour = colour;
        button
    }

    /// Whether the mouse is over the button.
    pub fn hovered(&self, terminal: &Terminal) -> (hovered: bool)
        ensures
            hovered == self.frame.spec_contains(terminal.mouse_pos),
    {
        self.frame.contains(terminal.mouse_pos)
    }

    /// Whether the left mouse button is held over the button.
    pub fn clicked(&self, terminal: &Terminal) -> (clicked: bool)
        ensures
            clicked == (holds(terminal.held_mouse_buttons@, 0) && self.frame.spec_contains(
                terminal.mouse_pos,
            )),
    {
        has_button(&terminal.held_mouse_buttons, 0) && self.frame.contains(terminal.mouse_pos)
    }

    /// What the mouse does to the button in this frame.
    pub fn state(&self, terminal: &Terminal) -> (out: ButtonOut)
        ensures
            out.hovered == self.frame.spec_contains(terminal.mouse_pos),
            out.state == button_state(
                out.hovered,
                holds(terminal.clicked_mouse_buttons@, 0),
                holds(terminal.held_mouse_buttons@, 0),
                holds(terminal.released_mouse_buttons@, 0),
            ),
    {
        let hovered = self.hovered(terminal);
        let state = if hovered {
            if has_button(&terminal.clicked_mouse_buttons, 0) {
                ButtonState::Pressed
            } else if has_button(&terminal.held_mouse_buttons, 0) {
                ButtonState::Held
            } else if has_button(&terminal.released_mouse_buttons, 0) {
                ButtonState::Released
            } else {
                ButtonState::Hovered
            }
        } else {
            ButtonState::Inactive
        };
        ButtonOut { state, hovered }
    }
}

impl<'a> Button<'a> {
    /// The border of the button, in the style `style`.
    pub open spec fn spec_border(&self, style: BorderStyle) -> Border {
        Border {
            x: self.frame.x,
            y: self.frame.y,
            width: self.frame.width,
            height: self.frame.height,
            style,
        }
    }

    /// The label of the button as the text that is drawn: in the middle of
    /// the frame, cut where it is too long.
    pub open spec fn spec_label(&self) -> Text<'a> {
        Text {
            text: self.label,
            frame: self.frame,
            text_colour: self.text_colour,
            background_colour: self.background_colour,
            vertical_anchor: VAlign::Center,
            vertical_overflow: VerticalOverflowStyle::Clip,
            horizontal_anchor: HAlign::Center,
            horizontal_overflow: HorizontalOverflowStyle::Clip,
            style: TextStyleFlags(0),
        }
    }

    /// Draws the button and says what the mouse does to it, or reports
    /// that the output buffer cannot take the button and draws nothing of
    /// it.
    pub fn draw(&self, terminal: &mut Terminal) -> (r: Result<ButtonOut, Error>)
        requires
            old(terminal).wf(),
            self.drawable(),
        ensures
            final(terminal).wf(),
            old(terminal).wrote(
                *final(terminal),
                match r {
                    Ok(_) => Ok(()),
                    Err(e) => Err(e),
                },
                self.spec_bytes(),
            ),
            r matches Ok(out) ==> out.hovered == self.frame.spec_contains(old(terminal).mouse_pos)
                && out.state == button_state(
                out.hovered,
                holds(old(terminal).clicked_mouse_buttons@, 0),
                holds(old(terminal).held_mouse_buttons@, 0),
                holds(old(terminal).released_mouse_buttons@, 0),
            ),
    {
        let bytes = self.bytes();
        match terminal.try_write(bytes.as_slice()) {
            Ok(()) => Ok(self.state(terminal)),
            Err(e) => Err(e),
        }
    }
}

impl Shape for Button<'_> {
    /// A button can be drawn where its border can, if it has one.
    open spec fn drawable(&self) -> bool {
        self.border_style matches Some(style) ==> self.spec_border(style).drawable()
    }

    /// The colour of the background, the border in its colour, if the
    /// button has one, and the label.
    open spec fn spec_bytes(&self) -> Seq<u8> {
        bg_sequence(self.background_colour) + (match self.border_style {
            Some(style) => fg_sequence(self.border_colour) + self.spec_border(style).spec_bytes(),
            None => Seq::empty(),
        }) + self.spec_label().spec_bytes()
    }

    fn bytes(&self) -> (bytes: Vec<u8>) {
        let mut bytes = colour_bytes(48, self.background_colour);
        match self.border_style {
            Some(style) => {
                let colour = colour_bytes(38, self.border_colour);
                append_bytes(&mut bytes, colour.as_slice());
                let border = Border {
                    x: self.frame.x,
                    y: self.frame.y,
                    width: self.frame.width,
                    height: self.frame.height,
                    style,
                };
                let drawn = border.bytes();
                append_bytes(&mut bytes, drawn.as_slice());
            },
            None => {},
        }
        let label = Text {
            text: self.label,
            frame: self.frame,
            text_colour: self.text_colour,
            background_colour: self.background_colour,
            vertical_anchor: VAlign::Center,
            vertical_overflow: VerticalOverflowStyle::Clip,
            horizontal_anchor: HAlign::Center,
            horizontal_overflow: HorizontalOverflowStyle::Clip,
            style: TextStyleFlags(0),
        };
        let drawn = label.bytes();
        append_bytes(&mut bytes, drawn.as_slice());
        proof {
            assert(bytes@ =~= self.spec_bytes());
        }
        bytes
    }
}

} // verus!
