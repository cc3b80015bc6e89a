//! Reading what the terminal reports: keys, and what the mouse does.
//!
//! A terminal reports a key that is text as the bytes of the text. It
//! reports other keys and the mouse as escape sequences: `ESC [ A` for the
//! arrow up, `ESC [ 5 ~` for page up, `ESC [ < b ; x ; y M` for a mouse
//! button that went down, and so on.

use crate::tui::input::{Key, ModifierKeys, ScrollDirection};
use crate::tui::terminal::{has_button, holds, Terminal, ESC};
use vstd::prelude::*;
use vstd::utf8::{decode_utf8, valid_utf8};

verus! {

/// One thing that the terminal reports.
#[derive(Clone, Copy, Debug, PartialEq, Eq)]
pub enum InputEvent {
    /// A key was pressed.
    Key(Key),
    /// The mouse was moved, or a button of it went down or up: the number
    /// that the terminal sends for the button and the keys held with it,
    /// the column and the row, both counted from one, and whether the
    /// button is down.
    Mouse { code: u16, x: u16, y: u16, down: bool },
}

/// What reading one report leaves: the event, if the report was one, and
/// where the next report starts.
pub struct Step {
    pub event: Option<InputEvent>,
    pub next: int,
}

/// The number that the digits from `at` up to the byte `stop` or `other`
/// stand for, and where the byte behind the number is. Bytes that are no
/// digits count like digits, and the number wraps around where it grows
/// too large, as the terminal never sends such numbers.
pub open spec fn number_from(input: Seq<u8>, at: int, so_far: u16, stop: u8, other: u8) -> (u16, int)
    decreases input.len() - at,
{
    if at < 0 || at >= input.len() {
        (so_far, at)
    } else if input[at] == stop || input[at] == other {
        (so_far, at + 1)
    } else {
        number_from(
            input,
            at + 1,
            so_far.wrapping_mul(10).wrapping_add((input[at] as u16).wrapping_sub(48)),
            stop,
            other,
        )
    }
}

/// The key that `ESC [ figure ~` stands for.
pub open spec fn tilde_key(figure: u8) -> Option<Key> {
    if figure == 53 {
        Some(Key::PageUp)
    } else if figure == 54 {
        Some(Key::PageDown)
    } else if figure == 49 || figure == 55 {
        Some(Key::Home)
    } else if figure == 52 || figure == 56 {
        Some(Key::End)
    } else if figure == 51 {
        Some(Key::Delete)
    } else {
        None
    }
}

/// The key that the letter `figure` stands for behind `ESC [` or behind
/// `ESC [ O`: home or end.
pub open spec fn home_or_end(figure: u8) -> Option<Key> {
    if figure == 72 {
        Some(Key::Home)
    } else if figure == 70 {
        Some(Key::End)
    } else {
        None
    }
}

/// The arrow key that the letter `figure` stands for behind `ESC [`.
pub open spec fn arrow_key(figure: u8) -> Option<Key> {
    if figure == 65 {
        Some(Key::ArrowUp)
    } else if figure == 66 {
        Some(Key::ArrowDown)
    } else if figure == 67 {
        Some(Key::ArrowRight)
    } else if figure == 68 {
        Some(Key::ArrowLeft)
    } else {
        None
    }
}

/// Reads the escape sequence that starts at `at`, where the byte at `at`
/// is the escape.
///
/// - An escape at the very end is the escape key.
/// - An escape with anything but `[` behind it is dropped with that byte.
/// - `ESC [ <` starts a report of the mouse: three numbers, the last one
///   ended by `M` or by `m`.
/// - `ESC [ A` to `ESC [ D` are the arrows.
/// - Of any other sequence the byte behind the letter is read with it:
///   with `~` there, the letter may stand for one of five keys; else the
///   letter stands for home or end, or is `O` and the byte behind what was
///   read says which of the two it is.
pub open spec fn escape_step(input: Seq<u8>, at: int) -> Step {
    if at + 1 >= input.len() {
        Step { event: Some(InputEvent::Key(Key::Escape)), next: at + 1 }
    } else if input[at + 1] != 91 {
        Step { event: None, next: at + 2 }
    } else if at + 2 >= input.len() {
        Step { event: None, next: at + 2 }
    } else {
        let figure = input[at + 2];
        if figure == 60 {
            let code = number_from(input, at + 3, 0, 59, 59);
            let x = number_from(input, code.1, 0, 59, 59);
            let y = number_from(input, x.1, 0, 109, 77);
            let down = 0 < y.1 <= input.len() && y.1 > x.1 && input[y.1 - 1] == 77;
            Step {
                event: Some(InputEvent::Mouse { code: code.0, x: x.0, y: y.0, down }),
                next: y.1,
            }
        } else if arrow_key(figure) is Some {
            Step { event: Some(InputEvent::Key(arrow_key(figure).unwrap())), next: at + 3 }
        } else if at + 3 >= input.len() {
            if figure == 79 {
                Step { event: None, next: at + 3 }
            } else {
                Step {
                    event: match home_or_end(figure) {
                        Some(key) => Some(InputEvent::Key(key)),
                        None => None,
                    },
                    next: at + 3,
                }
            }
        } else if input[at + 3] == 126 {
            Step {
                event: match tilde_key(figure) {
                    Some(key) => Some(InputEvent::Key(key)),
                    None => None,
                },
                next: at + 4,
            }
        } else if figure == 79 {
            if at + 4 >= input.len() {
                Step { event: None, next: at + 4 }
            } else {
                Step {
                    event: match home_or_end(input[at + 4]) {
                        Some(key) => Some(InputEvent::Key(key)),
                        None => None,
                    },
                    next: at + 5,
                }
            }
        } else {
            Step {
                event: match home_or_end(figure) {
                    Some(key) => Some(InputEvent::Key(key)),
                    None => None,
                },
                next: at + 4,
            }
        }
    }
}

/// Where the text that starts at `at` ends: at the next escape, or at the
/// end of the input.
pub open spec fn text_end(input: Seq<u8>, at: int) -> int
    decreases input.len() - at,
{
    if at < 0 || at >= input.len() || input[at] == ESC {
        at
    } else {
        text_end(input, at + 1)
    }
}

/// The key that a character of text stands for: the character 127 is the
/// backspace key.
pub open spec fn text_key(figure: char) -> Key {
    if figure == '\x7F' {
        Key::Backspace
    } else {
        Key::Text(figure)
    }
}

/// The keys that some text stands for.
pub open spec fn text_events(text: Seq<char>) -> Seq<InputEvent> {
    Seq::new(text.len(), |i: int| InputEvent::Key(text_key(text[i])))
}

/// The events that the input from `at` on stands for, in their order.
/// Text that is no UTF-8 is dropped up to the next escape.
pub open spec fn events_from(input: Seq<u8>, at: int) -> Seq<InputEvent>
    decreases
            (if at < input.len() {
                input.len() - at
            } else {
                0
            }),
{
    if at < 0 || at >= input.len() {
        Seq::empty()
    } else if input[at] == ESC {
        let step = escape_step(input, at);
        if step.next > at {
            (match step.event {
                Some(event) => seq![event],
                None => Seq::empty(),
            }) + events_from(input, step.next)
        } else {
            Seq::empty()
        }
    } else {
        let end = text_end(input, at + 1);
        let text = input.subrange(at, end);
        if end > at {
            (if valid_utf8(text) {
                text_events(decode_utf8(text))
            } else {
                Seq::empty()
            }) + events_from(input, end)
        } else {
            Seq::empty()
        }
    }
}

/// The text that `bytes` stand for, or `None` where they are no UTF-8.
///
/// Wraps [`core::str::from_utf8`], which checks that the bytes are valid
/// UTF-8, and gives the characters of what it accepts.
#[verifier::external_body]
fn decode_text(bytes: &[u8]) -> (text: Option<Vec<char>>)
    ensures
        text is Some <==> valid_utf8(bytes@),
        text is Some ==> text.unwrap()@ == decode_utf8(bytes@),
{
    match core::str::from_utf8(bytes) {
        Ok(text) => Some(text.chars().collect()),
        Err(_) => None,
    }
}

/// Reads a number from `at` up to the byte `stop` or `other`.
fn read_number(input: &[u8], at: usize, stop: u8, other: u8) -> (read: (u16, usize))
    requires
        at <= input@.len(),
    ensures
        (read.0, read.1 as int) == number_from(input@, at as int, 0, stop, other),
        at <= read.1 <= input@.len(),
{
    let mut number: u16 = 0;
    let mut idx = at;
    while idx < input.len()
        invariant
            at <= idx <= input@.len(),
            number_from(input@, at as int, 0, stop, other) == number_from(
                input@,
                idx as int,
                number,
                stop,
                other,
            ),
        decreases input@.len() - idx,
    {
        let byte = input[idx];
        if byte == stop || byte == other {
            return (number, idx + 1);
        }
        number = number.wrapping_mul(10).wrapping_add((byte as u16).wrapping_sub(48));
        idx = idx + 1;
    }
    (number, idx)
}

/// Reads the escape sequence that starts at `at`.
fn read_escape(input: &[u8], at: usize) -> (read: (Option<InputEvent>, usize))
    requires
        at < input@.len(),
        input@[at as int] == ESC,
    ensures
        read.0 == escape_step(input@, at as int).event,
        read.1 == escape_step(input@, at as int).next,
        at < read.1,
        read.1 <= input@.len() + 1,
{
    let len = input.len();
    if at + 1 >= len {
        return (Some(InputEvent::Key(Key::Escape)), at + 1);
    }
    if input[at + 1] != 91 {
        return (None, at + 2);
    }
    if at + 2 >= len {
        return (None, at + 2);
    }
    let figure = input[at + 2];
    if figure == 60 {
        let (code, behind_code) = read_number(input, at + 3, 59, 59);
        let (x, behind_x) = read_number(input, behind_code, 59, 59);
        let (y, behind_y) = read_number(input, behind_x, 109, 77);
        let down = behind_y > behind_x && input[behind_y - 1] == 77;
        return (Some(InputEvent::Mouse { code, x, y, down }), behind_y);
    }
    if figure == 65 {
        return (Some(InputEvent::Key(Key::ArrowUp)), at + 3);
    }
    if figure == 66 {
        return (Some(InputEvent::Key(Key::ArrowDown)), at + 3);
    }
    if figure == 67 {
        return (Some(InputEvent::Key(Key::ArrowRight)), at + 3);
    }
    if figure == 68 {
        return (Some(InputEvent::Key(Key::ArrowLeft)), at + 3);
    }
    if at + 3 >= len {
        if figure == 79 {
            return (None, at + 3);
        }
        return (key_event(read_home_or_end(figure)), at + 3);
    }
    if input[at + 3] == 126 {
        return (key_event(read_tilde_key(figure)), at + 4);
    }
    if figure == 79 {
        if at + 4 >= len {
            return (None, at + 4);
        }
        return (key_event(read_home_or_end(input[at + 4])), at + 5);
    }
    (key_event(read_home_or_end(figure)), at + 4)
}

/// The event that a key is, if it is one.
fn key_event(key: Option<Key>) -> (event: Option<InputEvent>)
    ensures
        event == (match key {
            Some(key) => Some(InputEvent::Key(key)),
            None => None,
        }),
{
    match key {
        Some(key) => Some(InputEvent::Key(key)),
        None => None,
    }
}

/// The key that `ESC [ figure ~` stands for.
fn read_tilde_key(figure: u8) -> (key: Option<Key>)
    ensures
        key == tilde_key(figure),
{
    if figure == 53 {
        Some(Key::PageUp)
    } else if figure == 54 {
        Some(Key::PageDown)
    } else if figure == 49 || figure == 55 {
        Some(Key::Home)
    } else if figure == 52 || figure == 56 {
        Some(Key::End)
    } else if figure == 51 {
        Some(Key::Delete)
    } else {
        None
    }
}

/// The key that the letter `figure` stands for: home or end.
fn read_home_or_end(figure: u8) -> (key: Option<Key>)
    ensures
        key == home_or_end(figure),
{
    if figure == 72 {
        Some(Key::Home)
    } else if figure == 70 {
        Some(Key::End)
    } else {
        None
    }
}

/// Reads what the terminal reported: the events that `input` stands for,
/// in their order.
pub fn read_events(input: &[u8]) -> (events: Vec<InputEvent>)
    ensures
        events@ == events_from(input@, 0),
{
    let mut events: Vec<InputEvent> = Vec::new();
    let mut at: usize = 0;
    while at < input.len()
        invariant
            at <= input@.len(),
            events_from(input@, 0) == events@ + events_from(input@, at as int),
        decreases input@.len() - at,
    {
        let ghost before = events@;
        if input[at] == ESC {
            let (event, next) = read_escape(input, at);
            match event {
                Some(event) => {
                    events.push(event);
                },
                None => {},
            }
            proof {
                assert(events_from(input@, at as int) =~= (match event {
                    Some(event) => seq![event],
                    None => Seq::empty(),
                }) + events_from(input@, next as int));
                assert(events_from(input@, 0) =~= events@ + events_from(input@, next as int));
            }
            at = if next < input.len() {
                next
            } else {
                input.len()
            };
        } else {
            let mut end = at + 1;
            while end < input.len() && input[end] != ESC
                invariant
                    at < end <= input@.len(),
                    text_end(input@, at + 1) == text_end(input@, end as int),
                decreases input@.len() - end,
            {
                end = end + 1;
            }
            let text = vstd::slice::slice_subrange(input, at, end);
            match decode_text(text) {
                Some(chars) => {
                    let mut idx: usize = 0;
                    while idx < chars.len()
                        invariant
                            idx <= chars@.len(),
                            events@ == before + text_events(chars@).take(idx as int),
                        decreases chars@.len() - idx,
                    {
                        let figure = chars[idx];
                        let key = if figure == '\x7F' {
                            Key::Backspace
                        } else {
                            Key::Text(figure)
                        };
                        assert(key == text_key(figure));
                        let ghost sofar = events@;
                        events.push(InputEvent::Key(key));
                        idx = idx + 1;
                        proof {
                            assert(text_events(chars@)[idx - 1] == InputEvent::Key(key));
                            assert(text_events(chars@).take(idx as int) =~= text_events(
                                chars@,
                            ).take(idx - 1).push(InputEvent::Key(key)));
                            assert(events@ =~= before + text_events(chars@).take(idx as int));
                        }
                    }
                    proof {
                        assert(text_events(chars@).take(idx as int) =~= text_events(chars@));
                    }
                },
                None => {},
            }
            proof {
                assert(events_from(input@, at as int) =~= (if valid_utf8(text@) {
                    text_events(decode_utf8(text@))
                } else {
                    Seq::empty()
                }) + events_from(input@, end as int));
                assert(events_from(input@, 0) =~= events@ + events_from(input@, end as int));
            }
            at = end;
        }
    }
    proof {
        assert(events_from(input@, at as int) =~= Seq::<InputEvent>::empty());
    }
    events
}

/// `items` with `item` in it: as it is where it holds the item, with the
/// item at its end where it does not.
pub open spec fn with<T>(items: Seq<T>, item: T) -> Seq<T> {
    if items.contains(item) {
        items
    } else {
        items.push(item)
    }
}

/// `items` without `item`.
pub open spec fn without<T>(items: Seq<T>, item: T) -> Seq<T>
    decreases items.len(),
{
    if items.len() == 0 {
        items
    } else if items.last() == item {
        without(items.drop_last(), item)
    } else {
        without(items.drop_last(), item).push(items.last())
    }
}

/// Puts `button` in `buttons`, unless it is there.
pub fn insert_button(buttons: &mut Vec<u8>, button: u8)
    ensures
        final(buttons)@ == with(old(buttons)@, button),
{
    if !has_button(buttons, button) {
        buttons.push(button);
    }
}

/// Takes `button` out of `buttons`.
pub fn remove_button(buttons: &mut Vec<u8>, button: u8)
    ensures
        final(buttons)@ == without(old(buttons)@, button),
{
    let mut kept: Vec<u8> = Vec::new();
    let mut idx: usize = 0;
    while idx < buttons.len()
        invariant
            idx <= buttons@.len(),
            buttons@ == old(buttons)@,
            kept@ == without(buttons@.take(idx as int), button),
        decreases buttons@.len() - idx,
    {
        proof {
            assert(buttons@.take(idx + 1).drop_last() =~= buttons@.take(idx as int));
        }
        if buttons[idx] != button {
            kept.push(buttons[idx]);
        }
        idx = idx + 1;
    }
    proof {
        assert(buttons@.take(idx as int) =~= buttons@);
    }
    *buttons = kept;
}

/// Puts `key` in `keys`, unless it is there.
pub fn insert_key(keys: &mut Vec<Key>, key: Key)
    ensures
        final(keys)@ == with(old(keys)@, key),
{
    let mut idx: usize = 0;
    while idx < keys.len()
        invariant
            idx <= keys@.len(),
            keys@ == old(keys)@,
            forall|i: int| 0 <= i < idx ==> keys@[i] != key,
        decreases keys@.len() - idx,
    {
        if keys[idx] == key {
            return ;
        }
        idx = idx + 1;
    }
    keys.push(key);
}

/// The number of the mouse button in a report of the mouse: the two
/// lowest bits of the code, in the second or the third group of buttons
/// where the code says so.
pub open spec fn button_number(code: u16) -> u16 {
    ((code & 0b0000_0011) + (if code & 0b0100_0000 != 0 {
        3int
    } else if code & 0b1000_0000 != 0 {
        7int
    } else {
        0int
    })) as u16
}

/// The keys that were held with the mouse button of a report.
pub open spec fn modifiers(code: u16) -> ModifierKeys {
    ModifierKeys {
        shift: code & 0b0000_0100 != 0,
        meta: code & 0b0000_1000 != 0,
        control: code & 0b0001_0000 != 0,
    }
}

/// What a terminal knows of the keys and the mouse.
pub struct InputState {
    pub mouse_pos: (u16, u16),
    pub clicked: Seq<u8>,
    pub held: Seq<u8>,
    pub released: Seq<u8>,
    pub scroll_direction: Option<ScrollDirection>,
    pub modifier_keys: ModifierKeys,
    pub pressed_keys: Seq<Key>,
}

impl InputState {
    /// What is known after an event.
    ///
    /// A key joins the pressed keys. A report of the mouse sets the keys
    /// that are held with it; the buttons four and five scroll; any other
    /// button moves the mouse to where the report says, and then a button
    /// that went down joins the clicked ones, unless it is held, and a
    /// button that went up leaves the clicked and the held ones and joins
    /// the released ones.
    pub open spec fn after_event(self, event: InputEvent) -> InputState {
        match event {
            InputEvent::Key(key) => InputState { pressed_keys: with(self.pressed_keys, key), ..self },
            InputEvent::Mouse { code, x, y, down } => {
                let number = button_number(code);
                let held = InputState { modifier_keys: modifiers(code), ..self };
                if number == 4 {
                    InputState { scroll_direction: Some(ScrollDirection::Backwards), ..held }
                } else if number == 5 {
                    InputState { scroll_direction: Some(ScrollDirection::Forwards), ..held }
                } else {
                    let moved = InputState {
                        mouse_pos: (x.wrapping_sub(1), y.wrapping_sub(1)),
                        ..held
                    };
                    let button = number as u8;
                    if down {
                        if holds(self.held, button) {
                            moved
                        } else {
                            InputState { clicked: with(self.clicked, button), ..moved }
                        }
                    } else {
                        InputState {
                            clicked: without(self.clicked, button),
                            held: without(self.held, button),
                            released: with(self.released, button),
                            ..moved
                        }
                    }
                }
            },
        }
    }

    /// What is known after some events, one after the other.
    pub open spec fn after_events(self, events: Seq<InputEvent>) -> InputState
        decreases events.len(),
    {
        if events.len() == 0 {
            self
        } else {
            self.after_events(events.drop_last()).after_event(events.last())
        }
    }

    /// What is known at the start of the next frame, before the terminal
    /// reports anything: no key is pressed; what was clicked is held;
    /// nothing was released.
    pub open spec fn next_frame(self) -> InputState {
        InputState {
            pressed_keys: Seq::empty(),
            clicked: Seq::empty(),
            held: with_all(self.held, self.clicked),
            released: Seq::empty(),
            ..self
        }
    }
}

/// `items` with every one of `more` in it.
pub open spec fn with_all<T>(items: Seq<T>, more: Seq<T>) -> Seq<T>
    decreases more.len(),
{
    if more.len() == 0 {
        items
    } else {
        with(with_all(items, more.drop_last()), more.last())
    }
}

/// Where a frame starts: all styles are switched off, the screen is
/// cleared, and the cursor goes to the upper left corner.
pub open spec fn frame_start() -> Seq<u8> {
    seq![ESC, 91u8, 48u8, 109u8, ESC, 91u8, 50u8, 74u8, ESC, 91u8, 72u8]
}

/// Where a frame ends: the cursor is shown at `target`, or hidden where
/// there is no target.
pub open spec fn frame_end(target: Option<(u16, u16)>) -> Seq<u8> {
    match target {
        Some((x, y)) => crate::tui::terminal::cursor_sequence(x, y) + seq![ESC, 91u8, 63u8, 50u8, 53u8, 104u8],
        None => seq![ESC, 91u8, 63u8, 50u8, 53u8, 108u8],
    }
}

impl Terminal {
    /// What the terminal knows of the keys and the mouse.
    pub open spec fn input_state(&self) -> InputState {
        InputState {
            mouse_pos: self.mouse_pos,
            clicked: self.clicked_mouse_buttons@,
            held: self.held_mouse_buttons@,
            released: self.released_mouse_buttons@,
            scroll_direction: self.scroll_direction,
            modifier_keys: self.modifier_keys,
            pressed_keys: self.pressed_keys@,
        }
    }

    /// Whether `after` is this terminal but for what it knows of the keys
    /// and the mouse.
    pub open spec fn same_screen(&self, after: Self) -> bool {
        &&& after.size == self.size
        &&& after.exit == self.exit
        &&& after.target_cursor_location == self.target_cursor_location
        &&& after.output_buffer == self.output_buffer
    }

    /// Takes one event into account.
    pub fn apply(&mut self, event: InputEvent)
        ensures
            final(self).input_state() == old(self).input_state().after_event(event),
            old(self).same_screen(*final(self)),
    {
        match event {
            InputEvent::Key(key) => {
                insert_key(&mut self.pressed_keys, key);
            },
            InputEvent::Mouse { code, x, y, down } => {
                let mut number = code & 0b0000_0011;
                assert(code & 0b0000_0011 <= 3) by (bit_vector);
                if code & 0b0100_0000 != 0 {
                    number = number + 3;
                } else if code & 0b1000_0000 != 0 {
                    number = number + 7;
                }
                self.modifier_keys.shift = (code & 0b0000_0100) != 0;
                self.modifier_keys.meta = (code & 0b0000_1000) != 0;
                self.modifier_keys.control = (code & 0b0001_0000) != 0;
                if number == 4 {
                    self.scroll_direction = Some(ScrollDirection::Backwards);
                } else if number == 5 {
                    self.scroll_direction = Some(ScrollDirection::Forwards);
                } else {
                    // -1 because the terminal counts columns and rows from 1
                    self.mouse_pos = (x.wrapping_sub(1), y.wrapping_sub(1));
                    let button = number as u8;
                    if down {
                        if !has_button(&self.held_mouse_buttons, button) {
                            insert_button(&mut self.clicked_mouse_buttons, button);
                        }
                    } else {
                        remove_button(&mut self.clicked_mouse_buttons, button);
                        remove_button(&mut self.held_mouse_buttons, button);
                        insert_button(&mut self.released_mouse_buttons, button);
                    }
                }
            },
        }
    }

    /// Takes into account what the terminal reported: the events that
    /// `input` stands for, one after the other.
    pub fn read_input(&mut self, input: &[u8])
        ensures
            final(self).input_state() == old(self).input_state().after_events(
                events_from(input@, 0),
            ),
            old(self).same_screen(*final(self)),
    {
        let events = read_events(input);
        let mut idx: usize = 0;
        proof {
            assert(events@.take(0) =~= Seq::<InputEvent>::empty());
        }
        while idx < events.len()
            invariant
                idx <= events@.len(),
                self.input_state() == old(self).input_state().after_events(
                    events@.take(idx as int),
                ),
                old(self).same_screen(*self),
            decreases events@.len() - idx,
        {
            proof {
                assert(events@.take(idx + 1).drop_last() =~= events@.take(idx as int));
            }
            self.apply(events[idx]);
            idx = idx + 1;
        }
        proof {
            assert(events@.take(idx as int) =~= events@);
        }
    }

    /// Ends a frame: gives out what is to be written to the terminal, and
    /// starts the next frame with the size that the terminal has now and
    /// with what it reported.
    ///
    /// What is written is the start of a frame, what was drawn, and the
    /// cursor, shown at its target or hidden.
    pub fn end_frame(&mut self, size: (u16, u16), input: &[u8]) -> (frame: Vec<u8>)
        requires
            old(self).wf(),
        ensures
            final(self).wf(),
            frame@ == frame_start() + old(self).output() + frame_end(
                old(self).target_cursor_location,
            ),
            final(self).output().len() == 0,
            final(self).target_cursor_location is None,
            final(self).size == size,
            final(self).exit == old(self).exit,
            final(self).input_state() == old(self).input_state().next_frame().after_events(
                events_from(input@, 0),
            ),
    {
        let mut frame: Vec<u8> = Vec::new();
        frame.push(ESC);
        frame.push(91);
        frame.push(48);
        frame.push(109);
        frame.push(ESC);
        frame.push(91);
        frame.push(50);
        frame.push(74);
        frame.push(ESC);
        frame.push(91);
        frame.push(72);
        crate::tui::terminal::append_bytes(&mut frame, self.output_buffer.as_slice());
        match self.target_cursor_location {
            Some((x, y)) => {
                let cursor = crate::tui::terminal::cursor_bytes(x, y);
                crate::tui::terminal::append_bytes(&mut frame, cursor.as_slice());
                frame.push(ESC);
                frame.push(91);
                frame.push(63);
                frame.push(50);
                frame.push(53);
                frame.push(104);
            },
            None => {
                frame.push(ESC);
                frame.push(91);
                frame.push(63);
                frame.push(50);
                frame.push(53);
                frame.push(108);
            },
        }
        proof {
            assert(frame@ =~= frame_start() + old(self).output() + frame_end(
                old(self).target_cursor_location,
            ));
        }
        self.target_cursor_location = None;
        self.output_buffer.clear();
        self.size = size;
        self.pressed_keys.clear();
        let mut idx: usize = 0;
        proof {
            assert(self.clicked_mouse_buttons@.take(0) =~= Seq::<u8>::empty());
        }
        while idx < self.clicked_mouse_buttons.len()
            invariant
                idx <= self.clicked_mouse_buttons@.len(),
                self.clicked_mouse_buttons == old(self).clicked_mouse_buttons,
                self.held_mouse_buttons@ == with_all(
                    old(self).held_mouse_buttons@,
                    self.clicked_mouse_buttons@.take(idx as int),
                ),
                self.wf(),
                self.output().len() == 0,
                self.target_cursor_location is None,
                self.size == size,
                self.exit == old(self).exit,
                self.pressed_keys@.len() == 0,
                self.mouse_pos == old(self).mouse_pos,
                self.scroll_direction == old(self).scroll_direction,
                self.modifier_keys == old(self).modifier_keys,
            decreases self.clicked_mouse_buttons@.len() - idx,
        {
            proof {
                assert(self.clicked_mouse_buttons@.take(idx + 1).drop_last()
                    =~= self.clicked_mouse_buttons@.take(idx as int));
            }
            let button = self.clicked_mouse_buttons[idx];
            insert_button(&mut self.held_mouse_buttons, button);
            idx = idx + 1;
        }
        proof {
            assert(self.clicked_mouse_buttons@.take(idx as int) =~= self.clicked_mouse_buttons@);
        }
        self.clicked_mouse_buttons.clear();
        self.released_mouse_buttons.clear();
        proof {
            assert(self.input_state().pressed_keys =~= Seq::<Key>::empty());
            assert(self.input_state().clicked =~= Seq::<u8>::empty());
            assert(self.input_state().released =~= Seq::<u8>::empty());
            assert(self.input_state() == old(self).input_state().next_frame());
        }
        self.read_input(input);
        frame
    }
}

} // verus!
