//! The terminal as the widgets see it: what the user did since the last
//! frame, and the escape sequences of the frame that is being drawn.

use crate::datatypes::arenavec::{ArenaVec, Error};
use crate::tui::colour::Colour;
use crate::tui::input::{Key, ModifierKeys, ScrollDirection};
use crate::utils::align_up;
use vstd::prelude::*;
use vstd::string::StringSliceAdditionalSpecFns;
use vstd::utf8::{
    encode_scalar, has_width_1_encoding, has_width_2_encoding, has_width_3_encoding,
};

verus! {

/// The byte that starts an escape sequence.
pub const ESC: u8 = 0x1B;

/// The digits of a number, the first digit first.
pub open spec fn decimal(n: nat) -> Seq<u8>
    decreases n,
{
    if n < 10 {
        seq![(48 + n) as u8]
    } else {
        decimal(n / 10).push((48 + n % 10) as u8)
    }
}

/// The sequence that moves the cursor to the column `x` and the row `y`,
/// both counted from zero.
pub open spec fn cursor_sequence(x: u16, y: u16) -> Seq<u8> {
    seq![ESC, 91u8] + decimal((y + 1) as nat) + seq![59u8] + decimal((x + 1) as nat) + seq![72u8]
}

/// The sequence that sets a colour: `kind` is 38 for the text and 48 for
/// the background.
pub open spec fn rgb_sequence(kind: u8, colour: Colour) -> Seq<u8> {
    seq![ESC, 91u8] + decimal(kind as nat) + seq![59u8, 50u8, 59u8] + decimal(colour.r as nat)
        + seq![59u8] + decimal(colour.g as nat) + seq![59u8] + decimal(colour.b as nat) + seq![109u8]
}

/// The sequence that sets the colour of the text, or goes back to the
/// colour that the terminal has by itself.
pub open spec fn fg_sequence(fg: Option<Colour>) -> Seq<u8> {
    match fg {
        Some(colour) => rgb_sequence(38, colour),
        None => seq![ESC, 91u8, 51u8, 57u8, 109u8],
    }
}

/// The sequence that sets the colour of the background, or goes back to
/// the colour that the terminal has by itself.
pub open spec fn bg_sequence(bg: Option<Colour>) -> Seq<u8> {
    match bg {
        Some(colour) => rgb_sequence(48, colour),
        None => seq![ESC, 91u8, 52u8, 57u8, 109u8],
    }
}

/// Appends the digits of `n` to `out`.
pub fn push_decimal(out: &mut Vec<u8>, n: u32)
    ensures
        final(out)@ == old(out)@ + decimal(n as nat),
    decreases n,
{
    if n >= 10 {
        push_decimal(out, n / 10);
    }
    out.push(48 + (n % 10) as u8);
    proof {
        if n >= 10 {
            assert(out@ =~= old(out)@ + decimal(n as nat));
        } else {
            assert(out@ =~= old(out)@ + decimal(n as nat));
        }
    }
}

/// The bytes that stand for `figure` in UTF-8.
pub fn encode_char(figure: char) -> (bytes: Vec<u8>)
    ensures
        bytes@ == encode_scalar(figure as u32),
{
    let scalar = figure as u32;
    let mut bytes: Vec<u8> = Vec::new();
    if scalar <= 0x7F {
        bytes.push((scalar & 0x7F) as u8);
    } else if scalar <= 0x7FF {
        bytes.push(0xC0 | ((scalar >> 6) & 0x1F) as u8);
        bytes.push(0x80 | (scalar & 0x3F) as u8);
    } else if scalar <= 0xFFFF {
        bytes.push(0xE0 | ((scalar >> 12) & 0x0F) as u8);
        bytes.push(0x80 | ((scalar >> 6) & 0x3F) as u8);
        bytes.push(0x80 | (scalar & 0x3F) as u8);
    } else {
        bytes.push(0xF0 | ((scalar >> 18) & 0x07) as u8);
        bytes.push(0x80 | ((scalar >> 12) & 0x3F) as u8);
        bytes.push(0x80 | ((scalar >> 6) & 0x3F) as u8);
        bytes.push(0x80 | (scalar & 0x3F) as u8);
    }
    assert(bytes@ =~= encode_scalar(figure as u32));
    bytes
}

/// The sequence that moves the cursor to the column `x` and the row `y`.
pub fn cursor_bytes(x: u16, y: u16) -> (bytes: Vec<u8>)
    ensures
        bytes@ == cursor_sequence(x, y),
{
    let mut bytes: Vec<u8> = Vec::new();
    bytes.push(ESC);
    bytes.push(91);
    push_decimal(&mut bytes, y as u32 + 1);
    bytes.push(59);
    push_decimal(&mut bytes, x as u32 + 1);
    bytes.push(72);
    assert(bytes@ =~= cursor_sequence(x, y));
    bytes
}

/// The sequence that sets the colour of the text (`kind` 38) or of the
/// background (`kind` 48), or goes back to the colour that the terminal
/// has by itself.
pub fn colour_bytes(kind: u8, colour: Option<Colour>) -> (bytes: Vec<u8>)
    requires
        kind == 38 || kind == 48,
    ensures
        bytes@ == (if kind == 38 {
            fg_sequence(colour)
        } else {
            bg_sequence(colour)
        }),
{
    let mut bytes: Vec<u8> = Vec::new();
    bytes.push(ESC);
    bytes.push(91);
    match colour {
        Some(colour) => {
            push_decimal(&mut bytes, kind as u32);
            bytes.push(59);
            bytes.push(50);
            bytes.push(59);
            push_decimal(&mut bytes, colour.r as u32);
            bytes.push(59);
            push_decimal(&mut bytes, colour.g as u32);
            bytes.push(59);
            push_decimal(&mut bytes, colour.b as u32);
            bytes.push(109);
            assert(bytes@ =~= rgb_sequence(kind, colour));
        },
        None => {
            bytes.push(if kind == 38 {
                51
            } else {
                52
            });
            bytes.push(57);
            bytes.push(109);
            assert(kind == 38 ==> bytes@ =~= fg_sequence(colour));
            assert(kind == 48 ==> bytes@ =~= bg_sequence(colour));
        },
    }
    bytes
}

/// Appends `bytes` to `out`.
pub fn append_bytes(out: &mut Vec<u8>, bytes: &[u8])
    ensures
        final(out)@ == old(out)@ + bytes@,
{
    let mut idx: usize = 0;
    while idx < bytes.len()
        invariant
            idx <= bytes@.len(),
            out@ == old(out)@ + bytes@.take(idx as int),
        decreases bytes@.len() - idx,
    {
        out.push(bytes[idx]);
        idx = idx + 1;
        proof {
            assert(out@ =~= old(out)@ + bytes@.take(idx as int));
        }
    }
    proof {
        assert(bytes@.take(idx as int) =~= bytes@);
    }
}

/// What draws `bytes` at the column `x` and the row `y`: the sequence that
/// moves the cursor there, and the bytes.
pub open spec fn placed(bytes: Seq<u8>, x: u16, y: u16) -> Seq<u8> {
    cursor_sequence(x, y) + bytes
}

/// Appends to `out` what draws `bytes` at the column `x` and the row `y`.
pub fn append_placed(out: &mut Vec<u8>, bytes: &[u8], x: u16, y: u16)
    ensures
        final(out)@ == old(out)@ + placed(bytes@, x, y),
{
    let cursor = cursor_bytes(x, y);
    append_bytes(out, cursor.as_slice());
    append_bytes(out, bytes);
    proof {
        assert(out@ =~= old(out)@ + placed(bytes@, x, y));
    }
}

/// Whether `buttons` holds `button`.
pub open spec fn holds(buttons: Seq<u8>, button: u8) -> bool {
    exists|i: int| 0 <= i < buttons.len() && buttons[i] == button
}

/// Whether `buttons` holds `button`.
pub fn has_button(buttons: &Vec<u8>, button: u8) -> (held: bool)
    ensures
        held == holds(buttons@, button),
{
    let mut idx: usize = 0;
    while idx < buttons.len()
        invariant
            idx <= buttons@.len(),
            forall|i: int| 0 <= i < idx ==> buttons@[i] != button,
        decreases buttons@.len() - idx,
    {
        if buttons[idx] == button {
            return true;
        }
        idx = idx + 1;
    }
    false
}

/// Handles communicating with the terminal using ANSI escape sequences to
/// query input and render the TUI.
pub struct Terminal {
    /// The width and height of the terminal we're rendering in.
    pub size: (u16, u16),
    /// The current location of the mouse.
    pub mouse_pos: (u16, u16),
    /// Mouse buttons that have just been clicked. Mouse button 0 is the
    /// left one.
    pub clicked_mouse_buttons: Vec<u8>,
    /// Mouse buttons that are currently being held.
    pub held_mouse_buttons: Vec<u8>,
    /// Mouse buttons that have just been released.
    pub released_mouse_buttons: Vec<u8>,
    /// Scroll direction.
    pub scroll_direction: Option<ScrollDirection>,
    /// Any actively held modifier keys.
    pub modifier_keys: ModifierKeys,
    /// Keys currently held by the user.
    pub pressed_keys: Vec<Key>,
    /// If we should exit the app.
    pub exit: bool,
    /// The location to move the cursor to, if one was set.
    pub target_cursor_location: Option<(u16, u16)>,
    /// The buffer for what is written to the terminal at the end of the
    /// frame.
    pub output_buffer: ArenaVec<u8>,
}

impl Terminal {
    /// The invariant of the terminal: its output buffer is well formed.
    pub open spec fn wf(&self) -> bool {
        self.output_buffer.wf()
    }

    /// The output buffer takes bytes up to its reservation.
    pub proof fn lemma_room(&self, count: nat)
        requires
            self.wf(),
        ensures
            self.has_room(count) <==> self.output().len() + count
                <= self.output_buffer.spec_reserved_memory(),
    {
        broadcast use vstd::layout::layout_of_primitives;

        self.output_buffer.lemma_room(count);
        assert(count * ArenaVec::<u8>::elem_size() == count) by (nonlinear_arith)
            requires
                ArenaVec::<u8>::elem_size() == 1,
        ;
        assert(self.output_buffer@.len() * ArenaVec::<u8>::elem_size()
            == self.output_buffer@.len()) by (nonlinear_arith)
            requires
                ArenaVec::<u8>::elem_size() == 1,
        ;
    }

    /// What was drawn since the last frame.
    pub open spec fn output(&self) -> Seq<u8> {
        self.output_buffer@
    }

    /// Whether the output buffer takes `count` more bytes.
    pub open spec fn has_room(&self, count: nat) -> bool {
        self.output_buffer.fitting_pushes(count) == count
    }

    /// Whether `after` is this terminal with `bytes` drawn behind what was
    /// drawn, and nothing else changed but the committed size of the
    /// output buffer, which is what it takes to hold as many of `tried`
    /// more bytes as fit.
    pub open spec fn drew(&self, after: Self, bytes: Seq<u8>, tried: nat) -> bool {
        &&& after.wf()
        &&& after.output() == self.output() + bytes
        &&& after.size == self.size
        &&& after.mouse_pos == self.mouse_pos
        &&& after.clicked_mouse_buttons == self.clicked_mouse_buttons
        &&& after.held_mouse_buttons == self.held_mouse_buttons
        &&& after.released_mouse_buttons == self.released_mouse_buttons
        &&& after.scroll_direction == self.scroll_direction
        &&& after.modifier_keys == self.modifier_keys
        &&& after.pressed_keys == self.pressed_keys
        &&& after.exit == self.exit
        &&& after.target_cursor_location == self.target_cursor_location
        &&& after.output_buffer.spec_reserved_memory() == self.output_buffer.spec_reserved_memory()
        &&& after.output_buffer.spec_page_size() == self.output_buffer.spec_page_size()
        &&& after.output_buffer.spec_capacity() == self.output_buffer.capacity_after(tried)
    }

    /// Whether `after` and `r` are what comes of drawing `bytes` on this
    /// terminal: the bytes are drawn where the output buffer takes them
    /// all, and nothing is drawn where it does not.
    pub open spec fn wrote(&self, after: Self, r: Result<(), Error>, bytes: Seq<u8>) -> bool {
        &&& r is Ok <==> self.has_room(bytes.len())
        &&& r is Ok ==> self.drew(after, bytes, bytes.len())
        &&& r is Err ==> r == Err::<(), Error>(Error::OutOfMemoryAddresses) && self.drew(
            after,
            Seq::empty(),
            bytes.len(),
        )
    }

    /// A terminal in which nothing has happened yet, with an output buffer
    /// that reserves a megabyte.
    pub fn new() -> (terminal: Self)
        ensures
            terminal.wf(),
            terminal.output().len() == 0,
            !terminal.exit,
            terminal.target_cursor_location is None,
            terminal.size == (0u16, 0u16),
            terminal.mouse_pos == (0u16, 0u16),
            terminal.clicked_mouse_buttons@.len() == 0,
            terminal.held_mouse_buttons@.len() == 0,
            terminal.released_mouse_buttons@.len() == 0,
            terminal.pressed_keys@.len() == 0,
            terminal.output_buffer.spec_reserved_memory() == 1003520,
    {
        broadcast use vstd::layout::layout_of_primitives;

        assert(align_up(1000000, 4096) == 1003520);
        Self {
            size: (0, 0),
            mouse_pos: (0, 0),
            modifier_keys: ModifierKeys { shift: false, meta: false, control: false },
            scroll_direction: None,
            clicked_mouse_buttons: Vec::new(),
            held_mouse_buttons: Vec::new(),
            released_mouse_buttons: Vec::new(),
            pressed_keys: Vec::new(),
            exit: false,
            target_cursor_location: None,
            output_buffer: ArenaVec::with_reserved_memory(1000000),
        }
    }

    /// Draws `bytes` as they are, or reports that the output buffer cannot
    /// take them and leaves what was drawn as it was.
    pub fn try_write(&mut self, bytes: &[u8]) -> (r: Result<(), Error>)
        requires
            old(self).wf(),
        ensures
            final(self).wf(),
            old(self).wrote(*final(self), r, bytes@),
    {
        let before = self.output_buffer.len();
        let ghost start = self.output_buffer@;
        proof {
            self.output_buffer.lemma_room(bytes@.len());
        }
        match self.output_buffer.try_extend_from_bytes(bytes) {
            Ok(()) => {
                proof {
                    assert(bytes@.take(bytes@.len() as int) =~= bytes@);
                }
                Ok(())
            },
            Err(e) => {
                self.output_buffer.truncate(before);
                proof {
                    assert(self.output_buffer@ =~= start);
                    assert(self.output() =~= old(self).output() + Seq::<u8>::empty());
                }
                Err(e)
            },
        }
    }

    /// Sets the colour of the text that is drawn next.
    pub fn set_fg(&mut self, fg: Option<Colour>) -> (r: Result<(), Error>)
        requires
            old(self).wf(),
        ensures
            final(self).wf(),
            old(self).wrote(*final(self), r, fg_sequence(fg)),
    {
        let bytes = colour_bytes(38, fg);
        self.try_write(bytes.as_slice())
    }

    /// Sets the colour of the background of what is drawn next.
    pub fn set_bg(&mut self, bg: Option<Colour>) -> (r: Result<(), Error>)
        requires
            old(self).wf(),
        ensures
            final(self).wf(),
            old(self).wrote(*final(self), r, bg_sequence(bg)),
    {
        let bytes = colour_bytes(48, bg);
        self.try_write(bytes.as_slice())
    }

    /// Draws `bytes` at `position`: the cursor is moved there, and the
    /// bytes follow.
    pub fn render_bytes(&mut self, bytes: &[u8], position: (u16, u16)) -> (r: Result<(), Error>)
        requires
            old(self).wf(),
        ensures
            final(self).wf(),
            old(self).wrote(*final(self), r, cursor_sequence(position.0, position.1) + bytes@),
    {
        let mut all = cursor_bytes(position.0, position.1);
        let mut idx: usize = 0;
        let ghost head = all@;
        while idx < bytes.len()
            invariant
                idx <= bytes@.len(),
                all@ == head + bytes@.take(idx as int),
            decreases bytes@.len() - idx,
        {
            all.push(bytes[idx]);
            idx = idx + 1;
            proof {
                assert(all@ =~= head + bytes@.take(idx as int));
            }
        }
        proof {
            assert(bytes@.take(idx as int) =~= bytes@);
        }
        self.try_write(all.as_slice())
    }

    /// Draws `figure` at `position`.
    pub fn render_char(&mut self, figure: char, position: (u16, u16)) -> (r: Result<(), Error>)
        requires
            old(self).wf(),
        ensures
            final(self).wf(),
            old(self).wrote(*final(self), r, cursor_sequence(position.0, position.1) + encode_scalar(figure as u32)),
    {
        let bytes = encode_char(figure);
        self.render_bytes(bytes.as_slice(), position)
    }

    /// Draws `string` at `position`.
    pub fn render_string(&mut self, string: &str, position: (u16, u16)) -> (r: Result<(), Error>)
        requires
            old(self).wf(),
        ensures
            final(self).wf(),
            old(self).wrote(*final(self), r, cursor_sequence(position.0, position.1) + string.spec_bytes()),
    {
        self.render_bytes(string.as_bytes(), position)
    }

    /// Draws `string` where the cursor is.
    pub fn render_string_unpositioned(&mut self, string: &str) -> (r: Result<(), Error>)
        requires
            old(self).wf(),
        ensures
            final(self).wf(),
            old(self).wrote(*final(self), r, string.spec_bytes()),
    {
        self.try_write(string.as_bytes())
    }
}

impl Terminal {
    /// Draws `element`, or reports that the output buffer cannot take it
    /// and draws nothing of it.
    #[inline(always)]
    pub fn draw<E: crate::tui::shapes::Shape>(&mut self, element: E) -> (r: Result<(), Error>)
        requires
            old(self).wf(),
            element.drawable(),
        ensures
            final(self).wf(),
            old(self).wrote(*final(self), r, element.spec_bytes()),
    {
        let bytes = element.bytes();
        self.try_write(bytes.as_slice())
    }
}

impl Default for Terminal {
    fn default() -> (terminal: Self)
        ensures
            terminal.wf(),
            terminal.output().len() == 0,
            !terminal.exit,
    {
        Self::new()
    }
}

} // verus!
