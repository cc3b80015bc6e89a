//! Text in a frame.

use crate::tui::colour::Colour;
use crate::tui::text_style::{TextStyle, TextStyleFlags};
use crate::tui::widgets::{Frame, HAlign, VAlign};
use crate::tui::shapes::Shape;
use crate::tui::terminal::{append_bytes, append_placed, encode_char, placed, ESC};
use vstd::prelude::*;
use vstd::string::StringSliceAdditionalSpecFns;
use vstd::utf8::encode_scalar;

verus! {

#[derive(Clone, Copy, PartialEq, Eq, Hash, Debug)]
pub enum HorizontalOverflowStyle {
    /// Cut off any text that goes past the widget.
    Clip,
    /// Cut off any text that goes past the widget, placing the specified
    /// char at the end of the text to show it's been clipped.
    ClipWithChar(char),
    /// Wrap text that goes past the widget onto a new line.
    Wrap,
    /// Allow text to render past the edge of the widget.
    Overflow,
}

#[derive(Clone, Copy, PartialEq, Eq, Hash, Debug)]
pub enum VerticalOverflowStyle {
    /// Cut off any text that goes past the widget.
    Clip,
    /// Cut off any text that goes past the widget, placing the specified
    /// char at the end of the text to show it's been clipped.
    ClipWithChar(char),
    /// Allow text to render past the edge of the widget.
    Overflow,
}

pub struct Text<'a> {
    pub text: &'a str,
    pub frame: Frame,
    pub text_colour: Option<Colour>,
    pub background_colour: Option<Colour>,
    pub vertical_anchor: VAlign,
    pub vertical_overflow: VerticalOverflowStyle,
    pub horizontal_anchor: HAlign,
    pub horizontal_overflow: HorizontalOverflowStyle,
    pub style: TextStyleFlags,
}

impl<'a> Text<'a> {
    pub fn new(text: &'a str) -> (widget: Self)
        ensures
            widget.text == text,
            widget.frame == (Frame { x: 0, y: 0, width: 10, height: 10 }),
            widget.text_colour is None,
            widget.background_colour is None,
            widget.vertical_anchor == VAlign::Center,
            widget.vertical_overflow == VerticalOverflowStyle::Clip,
            widget.horizontal_anchor == HAlign::Center,
            widget.horizontal_overflow == HorizontalOverflowStyle::Wrap,
            widget.style.0 == 0,
    {
        Self {
            text,
            frame: Frame { x: 0, y: 0, width: 10, height: 10 },
            text_colour: None,
            background_colour: None,
            vertical_anchor: VAlign::Center,
            vertical_overflow: VerticalOverflowStyle::Clip,
            horizontal_anchor: HAlign::Center,
            horizontal_overflow: HorizontalOverflowStyle::Wrap,
            style: TextStyleFlags(0),
        }
    }

    pub fn vertical_anchor(self, align: VAlign) -> (widget: Self)
        ensures
            widget == (Text { vertical_anchor: align, ..self }),
    {
        let mut widget = self;
        widget.vertical_anchor = align;
        widget
    }

    pub fn vertical_overflow(self, overflow: VerticalOverflowStyle) -> (widget: Self)
        ensures
            widget == (Text { vertical_overflow: overflow, ..self }),
    {
        let mut widget = self;
        widget.vertical_overflow = overflow;
        widget
    }

    pub fn horizontal_anchor(self, align: HAlign) -> (widget: Self)
        ensures
            widget == (Text { horizontal_anchor: align, ..self }),
    {
        let mut widget = self;
        widget.horizontal_anchor = align;
        widget
    }

    pub fn horizontal_overflow(self, overflow: HorizontalOverflowStyle) -> (widget: Self)
        ensures
            widget == (Text { horizontal_overflow: overflow, ..self }),
    {
        let mut widget = self;
        widget.horizontal_overflow = overflow;
        widget
    }

    /// Adds the styles of `style` to those of the text.
    pub fn text_style(self, style: TextStyleFlags) -> (widget: Self)
        ensures
            widget == (Text { style: TextStyleFlags(self.style.0 | style.0), ..self }),
    {
        let mut widget = self;
        widget.style.merge(style);
        widget
    }

    pub fn x(self, x: u16) -> (widget: Self)
        ensures
            widget == (Text { frame: Frame { x, ..self.frame }, ..self }),
    {
        let mut widget = self;
        widget.frame.x = x;
        widget
    }

    pub fn y(self, y: u16) -> (widget: Self)
        ensures
            widget == (Text { frame: Frame { y, ..self.frame }, ..self }),
    {
        let mut widget = self;
        widget.frame.y = y;
        widget
    }

    pub fn width(self, width: u16) -> (widget: Self)
        ensures
            widget == (Text { frame: Frame { width, ..self.frame }, ..self }),
    {
        let mut widget = self;
        widget.frame.width = width;
        widget
    }

    pub fn height(self, height: u16) -> (widget: Self)
        ensures
            widget == (Text { frame: Frame { height, ..self.frame }, ..self }),
    {
        let mut widget = self;
        widget.frame.height = height;
        widget
    }

    pub fn frame(self, frame: Frame) -> (widget: Self)
        ensures
            widget == (Text { frame, ..self }),
    {
        let mut widget = self;
        widget.frame = frame;
        widget
    }

    pub fn text_colour(self, colour: Option<Colour>) -> (widget: Self)
        ensures
            widget == (Text { text_colour: colour, ..self }),
    {
        let mut widget = self;
        widget.text_colour = colour;
        widget
    }

    pub fn background_colour(self, colour: Option<Colour>) -> (widget: Self)
        ensures
            widget == (Text { background_colour: colour, ..self }),
    {
        let mut widget = self;
        widget.background_colour = colour;
        widget
    }
}

/// The sequence that switches one style on: `code` is the digit that
/// stands for the style.
pub open spec fn style_sequence(code: u8) -> Seq<u8> {
    seq![ESC, 91u8, code, 109u8]
}

/// The sequence that switches `flag` on, if `style` holds it.
pub open spec fn style_part(style: TextStyleFlags, flag: TextStyle, code: u8) -> Seq<u8> {
    if style.spec_contains(flag) {
        style_sequence(code)
    } else {
        Seq::empty()
    }
}

/// The sequences that switch the styles of `style` on, in the order of
/// their digits.
pub open spec fn style_prefix(style: TextStyleFlags) -> Seq<u8> {
    style_part(style, TextStyle::Bold, 49) + style_part(style, TextStyle::Dim, 50) + style_part(
        style,
        TextStyle::Italic,
        51,
    ) + style_part(style, TextStyle::Underline, 52) + style_part(style, TextStyle::Blinking, 53)
        + style_part(style, TextStyle::Inverse, 55) + style_part(style, TextStyle::Hidden, 56)
        + style_part(style, TextStyle::Strikethrough, 57)
}

/// The sequence that switches all styles off again, if any was switched
/// on.
pub open spec fn style_reset(style: TextStyleFlags) -> Seq<u8> {
    if style.0 != 0 {
        style_sequence(48)
    } else {
        Seq::empty()
    }
}

/// The sum of two numbers of columns or rows, or the largest such number
/// where the sum is larger.
pub open spec fn clamped_sum(a: u16, b: u16) -> u16 {
    if a + b > u16::MAX {
        u16::MAX
    } else {
        (a + b) as u16
    }
}

/// The column in which a text of `len` bytes starts in `frame`: the text
/// is pushed to the side that `anchor` names, or put in the middle, where
/// the frame is wider than the text. Of the length only its lower sixteen
/// bits count.
pub open spec fn text_x(frame: Frame, anchor: HAlign, len: int) -> u16 {
    let short = len % 0x10000;
    if frame.width > short {
        let spare = (frame.width - short) as u16;
        match anchor {
            HAlign::Left => frame.x,
            HAlign::Center => clamped_sum(frame.x, spare / 2),
            HAlign::Right => clamped_sum(frame.x, spare),
        }
    } else {
        frame.x
    }
}

/// The row in which a text is drawn in `frame`: the first row, the row in
/// the middle, or the last row.
pub open spec fn text_y(frame: Frame, anchor: VAlign) -> u16 {
    match anchor {
        VAlign::Top => frame.y,
        VAlign::Center => clamped_sum(frame.y, frame.height / 2),
        VAlign::Bottom => clamped_sum(
            frame.y,
            if frame.height > 0 {
                (frame.height - 1) as u16
            } else {
                0u16
            },
        ),
    }
}

/// The bytes of a text that are drawn in a frame that is `width` columns
/// wide: all of them, or as many as fit, less one where a character is to
/// show that the text was cut.
pub open spec fn shown(text: Seq<u8>, width: u16, overflow: HorizontalOverflowStyle) -> Seq<u8> {
    match overflow {
        HorizontalOverflowStyle::Clip => if text.len() > width {
            text.take(width as int)
        } else {
            text
        },
        HorizontalOverflowStyle::ClipWithChar(_) => if text.len() > width {
            text.take(
                if width > 0 {
                    width - 1
                } else {
                    0
                },
            )
        } else {
            text
        },
        _ => text,
    }
}

/// What shows that a text was cut, where it was and a character is to show
/// it: the character, two columns in front of the right edge of the frame,
/// in its first row.
pub open spec fn cut_mark(text: Seq<u8>, frame: Frame, overflow: HorizontalOverflowStyle) -> Seq<u8> {
    match overflow {
        HorizontalOverflowStyle::ClipWithChar(figure) => if text.len() > frame.width {
            let edge = clamped_sum(frame.x, frame.width);
            placed(
                encode_scalar(figure as u32),
                if edge >= 2 {
                    (edge - 2) as u16
                } else {
                    0u16
                },
                frame.y,
            )
        } else {
            Seq::empty()
        },
        _ => Seq::empty(),
    }
}

/// Appends to `out` the sequence that switches `flag` on, if `style` holds
/// it.
fn append_style(out: &mut Vec<u8>, style: TextStyleFlags, flag: TextStyle, code: u8)
    ensures
        final(out)@ == old(out)@ + style_part(style, flag, code),
{
    if style.contains(flag) {
        out.push(ESC);
        out.push(91);
        out.push(code);
        out.push(109);
    }
    assert(out@ =~= old(out)@ + style_part(style, flag, code));
}

/// Appends to `out` the sequences that switch the styles of `style` on.
fn append_styles(out: &mut Vec<u8>, style: TextStyleFlags)
    ensures
        final(out)@ == old(out)@ + style_prefix(style),
{
    append_style(out, style, TextStyle::Bold, 49);
    append_style(out, style, TextStyle::Dim, 50);
    append_style(out, style, TextStyle::Italic, 51);
    append_style(out, style, TextStyle::Underline, 52);
    append_style(out, style, TextStyle::Blinking, 53);
    append_style(out, style, TextStyle::Inverse, 55);
    append_style(out, style, TextStyle::Hidden, 56);
    append_style(out, style, TextStyle::Strikethrough, 57);
    assert(out@ =~= old(out)@ + style_prefix(style));
}

/// Appends to `out` the sequence that switches all styles off, if `style`
/// holds any.
fn append_reset(out: &mut Vec<u8>, style: TextStyleFlags)
    ensures
        final(out)@ == old(out)@ + style_reset(style),
{
    if !style.is_empty() {
        out.push(ESC);
        out.push(91);
        out.push(48);
        out.push(109);
    }
    assert(out@ =~= old(out)@ + style_reset(style));
}

/// The column in which a text of `len` bytes starts in `frame`.
pub fn layout_x(frame: &Frame, anchor: HAlign, len: usize) -> (x: u16)
    ensures
        x == text_x(*frame, anchor, len as int),
{
    let short: u16 = (len % 0x10000) as u16;
    let horizontal_diff = frame.width.saturating_sub(short);
    if horizontal_diff > 0 {
        match anchor {
            HAlign::Left => frame.x,
            HAlign::Center => frame.x.saturating_add(horizontal_diff / 2),
            HAlign::Right => frame.x.saturating_add(horizontal_diff),
        }
    } else {
        frame.x
    }
}

/// The row in which a text is drawn in `frame`.
pub fn layout_y(frame: &Frame, anchor: VAlign) -> (y: u16)
    ensures
        y == text_y(*frame, anchor),
{
    match anchor {
        VAlign::Top => frame.y,
        VAlign::Center => frame.y.saturating_add(frame.height / 2),
        VAlign::Bottom => frame.y.saturating_add(frame.height.saturating_sub(1)),
    }
}

/// The bytes of `text` that are drawn in a frame that is `width` columns
/// wide.
pub fn visible<'a>(text: &'a [u8], width: u16, overflow: HorizontalOverflowStyle) -> (part: &'a [u8])
    ensures
        part@ == shown(text@, width, overflow),
{
    let cut = text.len() > width as usize;
    match overflow {
        HorizontalOverflowStyle::Clip => if cut {
            vstd::slice::slice_subrange(text, 0, width as usize)
        } else {
            text
        },
        HorizontalOverflowStyle::ClipWithChar(_) => if cut {
            vstd::slice::slice_subrange(text, 0, width.saturating_sub(1) as usize)
        } else {
            text
        },
        _ => text,
    }
}

/// Appends to `out` what shows that `text` was cut, where it was and a
/// character is to show it.
fn append_cut_mark(out: &mut Vec<u8>, text: &[u8], frame: &Frame, overflow: HorizontalOverflowStyle)
    ensures
        final(out)@ == old(out)@ + cut_mark(text@, *frame, overflow),
{
    match overflow {
        HorizontalOverflowStyle::ClipWithChar(figure) => {
            if text.len() > frame.width as usize {
                let edge = frame.x.saturating_add(frame.width);
                append_placed(out, encode_char(figure).as_slice(), edge.saturating_sub(2), frame.y);
            }
        },
        _ => {},
    }
    assert(out@ =~= old(out)@ + cut_mark(text@, *frame, overflow));
}

/// The bytes that draw `text` in `frame`: the styles, the text at its
/// place, what shows that it was cut, and the end of the styles.
pub open spec fn text_bytes(
    text: Seq<u8>,
    frame: Frame,
    anchors: (HAlign, VAlign),
    overflow: HorizontalOverflowStyle,
    style: TextStyleFlags,
) -> Seq<u8> {
    style_prefix(style) + placed(
        shown(text, frame.width, overflow),
        text_x(frame, anchors.0, text.len() as int),
        text_y(frame, anchors.1),
    ) + cut_mark(text, frame, overflow) + style_reset(style)
}

/// The bytes that draw `text` in `frame`.
pub fn draw_text(
    text: &[u8],
    frame: &Frame,
    anchors: (HAlign, VAlign),
    overflow: HorizontalOverflowStyle,
    style: TextStyleFlags,
) -> (bytes: Vec<u8>)
    ensures
        bytes@ == text_bytes(text@, *frame, anchors, overflow, style),
{
    let mut bytes: Vec<u8> = Vec::new();
    append_styles(&mut bytes, style);
    let x = layout_x(frame, anchors.0, text.len());
    let y = layout_y(frame, anchors.1);
    append_placed(&mut bytes, visible(text, frame.width, overflow), x, y);
    append_cut_mark(&mut bytes, text, frame, overflow);
    append_reset(&mut bytes, style);
    proof {
        assert(bytes@ =~= text_bytes(text@, *frame, anchors, overflow, style));
    }
    bytes
}

impl Shape for Text<'_> {
    /// A text can be drawn unless it is to be wrapped.
    open spec fn drawable(&self) -> bool {
        self.horizontal_overflow != HorizontalOverflowStyle::Wrap
    }

    open spec fn spec_bytes(&self) -> Seq<u8> {
        text_bytes(
            self.text.spec_bytes(),
            self.frame,
            (self.horizontal_anchor, self.vertical_anchor),
            self.horizontal_overflow,
            self.style,
        )
    }

    fn bytes(&self) -> (bytes: Vec<u8>) {
        draw_text(
            self.text.as_bytes(),
            &self.frame,
            (self.horizontal_anchor, self.vertical_anchor),
            self.horizontal_overflow,
            self.style,
        )
    }
}

} // verus!
