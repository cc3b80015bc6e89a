//! State common to all widgets.

use crate::tui::colour::Colour;
use crate::tui::shapes::BorderStyle;
use vstd::prelude::*;

verus! {

#[derive(Clone, Copy, Debug, PartialEq, Eq)]
pub enum TextHorizontalAlign {
    Center,
    Left,
    Right,
}

#[derive(Clone, Copy, Debug, PartialEq, Eq)]
pub enum TextVerticalAlign {
    Center,
    Top,
    Bottom,
}

/// State common to all widgets. This stores basic data like colour,
/// position, and border style.
pub struct WidgetState<S> {
    pub x: u16,
    pub y: u16,
    pub width: u16,
    pub height: u16,
    pub fg: Option<Colour>,
    pub bg: Option<Colour>,
    pub border_style: Option<BorderStyle>,
    pub text_vertical_align: TextVerticalAlign,
    pub text_horizontal_align: TextHorizontalAlign,
    pub state: S,
}

impl<S> WidgetState<S> {
    pub fn new(state: S) -> (widget: Self)
        ensures
            widget == (WidgetState {
                x: 0,
                y: 0,
                width: 10,
                height: 10,
                fg: Some(Colour { r: 255, g: 255, b: 255 }),
                bg: None,
                border_style: None,
                text_vertical_align: TextVerticalAlign::Center,
                text_horizontal_align: TextHorizontalAlign::Center,
                state,
            }),
    {
        Self {
            x: 0,
            y: 0,
            width: 10,
            height: 10,
            fg: Some(Colour::white()),
            bg: None,
            border_style: None,
            text_vertical_align: TextVerticalAlign::Center,
            text_horizontal_align: TextHorizontalAlign::Center,
            state,
        }
    }

    /// Whether the widget covers `point`: the point lies on or behind the
    /// left and the upper edge, and in front of the right and the lower
    /// one.
    pub open spec fn spec_contains(&self, point: (u16, u16)) -> bool {
        &&& self.x <= point.0 < self.x + self.width
        &&& self.y <= point.1 < self.y + self.height
    }

    pub fn contains(&self, point: (u16, u16)) -> (inside: bool)
        ensures
            inside == self.spec_contains(point),
    {
        let (x, y) = point;
        x >= self.x && (x as u32) < self.x as u32 + self.width as u32 && y >= self.y && (y as u32)
            < self.y as u32 + self.height as u32
    }

    /// The state of the widget.
    pub fn state(&self) -> (state: &S)
        ensures
            *state == self.state,
    {
        &self.state
    }

    pub fn x(self, x: u16) -> (widget: Self)
        ensures
            widget == (WidgetState { x, ..self }),
    {
        let mut widget = self;
        widget.x = x;
        widget
    }

    pub fn y(self, y: u16) -> (widget: Self)
        ensures
            widget == (WidgetState { y, ..self }),
    {
        let mut widget = self;
        widget.y = y;
        widget
    }

    pub fn width(self, width: u16) -> (widget: Self)
        ensures
            widget == (WidgetState { width, ..self }),
    {
        let mut widget = self;
        widget.width = width;
        widget
    }

    pub fn height(self, height: u16) -> (widget: Self)
        ensures
            widget == (WidgetState { height, ..self }),
    {
        let mut widget = self;
        widget.height = height;
        widget
    }

    pub fn fg(self, fg: Option<Colour>) -> (widget: Self)
        ensures
            widget == (WidgetState { fg, ..self }),
    {
        let mut widget = self;
        widget.fg = fg;
        widget
    }

    pub fn bg(self, bg: Option<Colour>) -> (widget: Self)
        ensures
            widget == (WidgetState { bg, ..self }),
    {
        let mut widget = self;
        widget.bg = bg;
        widget
    }

    pub fn border_style(self, style: Option<BorderStyle>) -> (widget: Self)
        ensures
            widget == (WidgetState { border_style: style, ..self }),
    {
        let mut widget = self;
        widget.border_style = style;
        widget
    }

    pub fn text_vertical_align(self, align: TextVerticalAlign) -> (widget: Self)
        ensures
            widget == (WidgetState { text_vertical_align: align, ..self }),
    {
        let mut widget = self;
        widget.text_vertical_align = align;
        widget
    }

    pub fn text_horizontal_align(self, align: TextHorizontalAlign) -> (widget: Self)
        ensures
            widget == (WidgetState { text_horizontal_align: align, ..self }),
    {
        let mut widget = self;
        widget.text_horizontal_align = align;
        widget
    }
}

} // verus!
