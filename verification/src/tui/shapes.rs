//! Shapes: the plain things that widgets are drawn with.

use crate::tui::terminal::{append_bytes, append_placed, encode_char, placed};
use vstd::prelude::*;
use vstd::string::StringSliceAdditionalSpecFns;
use vstd::utf8::encode_scalar;

verus! {

/// What can be drawn in the terminal: what has bytes that draw it.
pub trait Shape {
    /// Whether the shape can be drawn: whether its measures make sense and
    /// its place lies in the numbers that count columns and rows.
    spec fn drawable(&self) -> bool;

    /// The bytes that draw the shape.
    spec fn spec_bytes(&self) -> Seq<u8>;

    /// The bytes that draw the shape.
    fn bytes(&self) -> (bytes: Vec<u8>)
        requires
            self.drawable(),
        ensures
            bytes@ == self.spec_bytes(),
    ;
}

/// A string at a place in the terminal.
pub struct RawString<'a> {
    pub x: u16,
    pub y: u16,
    pub text: &'a str,
}

/// A single-colour rectangle.
#[derive(Clone, Copy, Debug, PartialEq, Eq)]
pub struct Rect {
    /// The x-coordinate for the top left of the rectangle.
    pub x: u16,
    /// The y-coordinate for the top left of the rectangle.
    pub y: u16,
    /// How wide the rectangle is.
    pub width: u16,
    /// How tall the rectangle is.
    pub height: u16,
}

/// A border that can go around another UI element. The characters that are
/// used in the border are determined by the [`BorderStyle`] used.
#[derive(Clone, Copy, Debug, PartialEq, Eq)]
pub struct Border {
    pub x: u16,
    pub y: u16,
    pub width: u16,
    pub height: u16,
    pub style: BorderStyle,
}

/// The characters used to make a [`Border`]. There are several included
/// styles; it may be easier to use those than to make your own.
#[derive(Clone, Copy, Debug, PartialEq, Eq)]
pub struct BorderStyle {
    pub top_left: char,
    pub top: char,
    pub top_right: char,
    pub right: char,
    pub bottom_right: char,
    pub bottom: char,
    pub bottom_left: char,
    pub left: char,
}

impl BorderStyle {
    /// A style made of its four corners and its four sides, clockwise from
    /// the upper left corner.
    pub fn of(corners: (char, char, char, char), sides: (char, char, char, char)) -> (style: Self)
        ensures
            style == (BorderStyle {
                top_left: corners.0,
                top: sides.0,
                top_right: corners.1,
                right: sides.1,
                bottom_right: corners.2,
                bottom: sides.2,
                bottom_left: corners.3,
                left: sides.3,
            }),
    {
        Self {
            top_left: corners.0,
            top: sides.0,
            top_right: corners.1,
            right: sides.1,
            bottom_right: corners.2,
            bottom: sides.2,
            bottom_left: corners.3,
            left: sides.3,
        }
    }

    /// ```text
    /// *---*
    /// |   |
    /// *---*
    /// ```
    pub open spec fn spec_ascii() -> BorderStyle {
        BorderStyle {
            top_left: '*',
            top: '-',
            top_right: '*',
            right: '|',
            bottom_right: '*',
            bottom: '-',
            bottom_left: '*',
            left: '|',
        }
    }

    /// The style of that name.
    #[verifier::when_used_as_spec(spec_ascii)]
    pub fn ascii() -> (style: Self)
        ensures
            style == Self::spec_ascii(),
    {
        Self::of(('*', '*', '*', '*'), ('-', '|', '-', '|'))
    }

    /// ```text
    /// ╭───╮
    /// │   │
    /// ╰───╯
    /// ```
    pub open spec fn spec_round() -> BorderStyle {
        BorderStyle {
            top_left: '╭',
            top: '─',
            top_right: '╮',
            right: '│',
            bottom_right: '╯',
            bottom: '─',
            bottom_left: '╰',
            left: '│',
        }
    }

    /// The style of that name.
    #[verifier::when_used_as_spec(spec_round)]
    pub fn round() -> (style: Self)
        ensures
            style == Self::spec_round(),
    {
        Self::of(('╭', '╮', '╯', '╰'), ('─', '│', '─', '│'))
    }

    /// ```text
    /// ┌───┐
    /// │   │
    /// └───┘
    /// ```
    pub open spec fn spec_normal() -> BorderStyle {
        BorderStyle {
            top_left: '┌',
            top: '─',
            top_right: '┐',
            right: '│',
            bottom_right: '┘',
            bottom: '─',
            bottom_left: '└',
            left: '│',
        }
    }

    /// The style of that name.
    #[verifier::when_used_as_spec(spec_normal)]
    pub fn normal() -> (style: Self)
        ensures
            style == Self::spec_normal(),
    {
        Self::of(('┌', '┐', '┘', '└'), ('─', '│', '─', '│'))
    }

    /// ```text
    /// ┏━━━┓
    /// ┃   ┃
    /// ┗━━━┛
    /// ```
    pub open spec fn spec_heavy() -> BorderStyle {
        BorderStyle {
            top_left: '┏',
            top: '━',
            top_right: '┓',
            right: '┃',
            bottom_right: '┛',
            bottom: '━',
            bottom_left: '┗',
            left: '┃',
        }
    }

    /// The style of that name.
    #[verifier::when_used_as_spec(spec_heavy)]
    pub fn heavy() -> (style: Self)
        ensures
            style == Self::spec_heavy(),
    {
        Self::of(('┏', '┓', '┛', '┗'), ('━', '┃', '━', '┃'))
    }

    /// ```text
    /// ╔═══╗
    /// ║   ║
    /// ╚═══╝
    /// ```
    pub open spec fn spec_double() -> BorderStyle {
        BorderStyle {
            top_left: '╔',
            top: '═',
            top_right: '╗',
            right: '║',
            bottom_right: '╝',
            bottom: '═',
            bottom_left: '╚',
            left: '║',
        }
    }

    /// The style of that name.
    #[verifier::when_used_as_spec(spec_double)]
    pub fn double() -> (style: Self)
        ensures
            style == Self::spec_double(),
    {
        Self::of(('╔', '╗', '╝', '╚'), ('═', '║', '═', '║'))
    }
}

impl Shape for RawString<'_> {
    open spec fn drawable(&self) -> bool {
        true
    }

    open spec fn spec_bytes(&self) -> Seq<u8> {
        placed(self.text.spec_bytes(), self.x, self.y)
    }

    fn bytes(&self) -> (bytes: Vec<u8>) {
        let mut bytes: Vec<u8> = Vec::new();
        append_placed(&mut bytes, self.text.as_bytes(), self.x, self.y);
        proof {
            assert(bytes@ =~= self.spec_bytes());
        }
        bytes
    }
}

/// As many of the byte `byte` as `count` says.
pub open spec fn repeated(byte: u8, count: nat) -> Seq<u8> {
    Seq::new(count, |i: int| byte)
}

/// The bytes of as many of the character `figure` as `count` says.
pub open spec fn repeated_char(figure: char, count: nat) -> Seq<u8>
    decreases count,
{
    if count == 0 {
        Seq::empty()
    } else {
        repeated_char(figure, (count - 1) as nat) + encode_scalar(figure as u32)
    }
}

/// The rows `from..to` of a rectangle: one run of blanks for each, from
/// the top down.
pub open spec fn rect_rows(rect: Rect, from: int, to: int) -> Seq<u8>
    decreases to - from,
{
    if from >= to {
        Seq::empty()
    } else {
        rect_rows(rect, from, to - 1) + placed(
            repeated(32, rect.width as nat),
            rect.x,
            (rect.y + to - 1) as u16,
        )
    }
}

impl Shape for Rect {
    /// A rectangle can be drawn where its rows have numbers.
    open spec fn drawable(&self) -> bool {
        self.y + self.height <= u16::MAX + 1
    }

    open spec fn spec_bytes(&self) -> Seq<u8> {
        rect_rows(*self, 0, self.height as int)
    }

    fn bytes(&self) -> (bytes: Vec<u8>) {
        let mut row: Vec<u8> = Vec::new();
        let mut filled: u16 = 0;
        while filled < self.width
            invariant
                filled <= self.width,
                row@ == repeated(32, filled as nat),
            decreases self.width - filled,
        {
            row.push(32);
            filled = filled + 1;
            proof {
                assert(row@ =~= repeated(32, filled as nat));
            }
        }
        let mut bytes: Vec<u8> = Vec::new();
        let mut current_row: u16 = 0;
        while current_row < self.height
            invariant
                self.drawable(),
                current_row <= self.height,
                row@ == repeated(32, self.width as nat),
                bytes@ == rect_rows(*self, 0, current_row as int),
            decreases self.height - current_row,
        {
            append_placed(&mut bytes, row.as_slice(), self.x, self.y + current_row);
            current_row = current_row + 1;
        }
        bytes
    }
}

/// The sides of a border in the rows `from..to`: the left and the right
/// side of each row, from the top down.
pub open spec fn border_sides(border: Border, from: int, to: int) -> Seq<u8>
    decreases to - from,
{
    if from >= to {
        Seq::empty()
    } else {
        border_sides(border, from, to - 1) + placed(
            encode_scalar(border.style.left as u32),
            border.x,
            (border.y + to - 1) as u16,
        ) + placed(
            encode_scalar(border.style.right as u32),
            (border.x + border.width - 1) as u16,
            (border.y + to - 1) as u16,
        )
    }
}

impl Shape for Border {
    /// A border can be drawn where it has two corners to a side and its
    /// columns and rows have numbers.
    open spec fn drawable(&self) -> bool {
        &&& self.width >= 2
        &&& self.height >= 1
        &&& self.x + self.width <= u16::MAX + 1
        &&& self.y + self.height <= u16::MAX + 1
    }

    /// The upper side with its corners, the lower side with its corners,
    /// then the left and the right side, row by row.
    open spec fn spec_bytes(&self) -> Seq<u8> {
        let right = (self.x + self.width - 1) as u16;
        let bottom = (self.y + self.height - 1) as u16;
        placed(encode_scalar(self.style.top_left as u32), self.x, self.y) + placed(
            repeated_char(self.style.top, (self.width - 2) as nat),
            (self.x + 1) as u16,
            self.y,
        ) + placed(encode_scalar(self.style.top_right as u32), right, self.y) + placed(
            encode_scalar(self.style.bottom_right as u32),
            right,
            bottom,
        ) + placed(
            repeated_char(self.style.bottom, (self.width - 2) as nat),
            (self.x + 1) as u16,
            bottom,
        ) + placed(encode_scalar(self.style.bottom_left as u32), self.x, bottom) + border_sides(
            *self,
            1,
            self.height - 1,
        )
    }

    fn bytes(&self) -> (bytes: Vec<u8>) {
        let right = self.x + (self.width - 1);
        let bottom = self.y + (self.height - 1);
        let top = line_of(self.style.top, self.width - 2);
        let btm = line_of(self.style.bottom, self.width - 2);
        let mut bytes: Vec<u8> = Vec::new();
        // top & top corners
        append_placed(&mut bytes, encode_char(self.style.top_left).as_slice(), self.x, self.y);
        append_placed(&mut bytes, top.as_slice(), self.x + 1, self.y);
        append_placed(&mut bytes, encode_char(self.style.top_right).as_slice(), right, self.y);
        // bottom & bottom corners
        append_placed(&mut bytes, encode_char(self.style.bottom_right).as_slice(), right, bottom);
        append_placed(&mut bytes, btm.as_slice(), self.x + 1, bottom);
        append_placed(&mut bytes, encode_char(self.style.bottom_left).as_slice(), self.x, bottom);
        // sides
        let ghost head = bytes@;
        let left = encode_char(self.style.left);
        let right_side = encode_char(self.style.right);
        let mut row: u16 = 1;
        while row < self.height - 1
            invariant
                self.drawable(),
                1 <= row,
                row <= self.height - 1 || (self.height == 1 && row == 1),
                right == self.x + self.width - 1,
                left@ == encode_scalar(self.style.left as u32),
                right_side@ == encode_scalar(self.style.right as u32),
                bytes@ == head + border_sides(*self, 1, row as int),
            decreases self.height - row,
        {
            append_placed(&mut bytes, left.as_slice(), self.x, self.y + row);
            append_placed(&mut bytes, right_side.as_slice(), right, self.y + row);
            row = row + 1;
            proof {
                assert(bytes@ =~= head + border_sides(*self, 1, row as int));
            }
        }
        proof {
            if self.height == 1 {
                assert(border_sides(*self, 1, 1) =~= Seq::<u8>::empty());
                assert(border_sides(*self, 1, 0) =~= Seq::<u8>::empty());
            }
            assert(border_sides(*self, 1, row as int) == border_sides(*self, 1, self.height - 1));
            assert(bytes@ =~= self.spec_bytes());
        }
        bytes
    }
}

/// The bytes of as many of the character `figure` as `count` says.
pub fn line_of(figure: char, count: u16) -> (line: Vec<u8>)
    ensures
        line@ == repeated_char(figure, count as nat),
{
    let one = encode_char(figure);
    let mut line: Vec<u8> = Vec::new();
    let mut made: u16 = 0;
    while made < count
        invariant
            made <= count,
            one@ == encode_scalar(figure as u32),
            line@ == repeated_char(figure, made as nat),
        decreases count - made,
    {
        append_bytes(&mut line, one.as_slice());
        made = made + 1;
    }
    line
}

} // verus!
