use scaffolding::datatypes::arenavec::Error;
use scaffolding::datatypes::uniq::UniqKey;
use scaffolding::tui::app::{tui_handler, App, TuiPlugin};
use scaffolding::tui::colour::Colour;
use scaffolding::tui::events::{read_events, InputEvent};
use scaffolding::tui::input::{Key, ModifierKeys, ScrollDirection};
use scaffolding::tui::msg::{tui_msg_handler, TuiMsg};
use scaffolding::tui::runloop::TuiRunloop;
use scaffolding::tui::shapes::{Border, BorderStyle, RawString, Rect, Shape};
use scaffolding::tui::terminal::{encode_char, push_decimal, Terminal};
use scaffolding::tui::text_style::{TextStyle, TextStyleFlags};
use scaffolding::tui::widgets::api::{TextHorizontalAlign, WidgetState};
use scaffolding::tui::widgets::button::{Button, ButtonState};
use scaffolding::tui::widgets::checkbox::{Checkbox, CheckboxCache};
use scaffolding::tui::widgets::text::{HorizontalOverflowStyle, Text};
use scaffolding::tui::widgets::textinput::{
    grapheme_start, move_cursor, plan_edit, window_of, Edit, TextInput, TextInputCache,
};
use scaffolding::tui::widgets::{Frame, HAlign, VAlign};
use scaffolding::world::World;

fn chars(text: &str) -> Vec<char> {
    text.chars().collect()
}

fn drawn(terminal: &Terminal) -> String {
    String::from_utf8(terminal.output_buffer.as_slice().to_vec()).unwrap()
}

#[test]
fn frames_contain_their_points() {
    let frame = Frame { x: 2, y: 3, width: 4, height: 5 };
    assert!(frame.contains((2, 3)));
    assert!(frame.contains((5, 7)));
    assert!(!frame.contains((6, 7)));
    assert!(!frame.contains((5, 8)));
    assert!(!frame.contains((1, 3)));
    assert!(!frame.contains((2, 2)));
    let edge = Frame { x: 65535, y: 65535, width: 1, height: 1 };
    assert!(edge.contains((65535, 65535)));
    assert!(!Frame { x: 0, y: 0, width: 0, height: 1 }.contains((0, 0)));
    let state = WidgetState::new(7u8).x(2).y(3).width(4).height(5);
    assert!(state.contains((5, 7)));
    assert!(!state.contains((6, 7)));
    assert_eq!(*state.state(), 7);
    assert_eq!(WidgetState::new(()).fg, Some(Colour::white()));
    assert_eq!(
        WidgetState::new(()).text_horizontal_align(TextHorizontalAlign::Left).text_horizontal_align,
        TextHorizontalAlign::Left
    );
    assert_eq!(VAlign::default(), VAlign::Center);
    assert_eq!(HAlign::default(), HAlign::Center);
}

#[test]
fn numbers_and_characters_as_bytes() {
    let mut out = Vec::new();
    push_decimal(&mut out, 0);
    out.push(b' ');
    push_decimal(&mut out, 7);
    out.push(b' ');
    push_decimal(&mut out, 65536);
    out.push(b' ');
    push_decimal(&mut out, u32::MAX);
    assert_eq!(out, b"0 7 65536 4294967295");
    for figure in ['a', '\u{7f}', 'é', '\u{7ff}', '\u{800}', 'か', '╭', '\u{ffff}', '🗹', '\u{10ffff}'] {
        assert_eq!(encode_char(figure), figure.to_string().into_bytes());
    }
}

#[test]
fn colours_and_strings_are_drawn_as_escape_sequences() {
    let mut terminal = Terminal::new();
    assert_eq!(terminal.set_fg(Some(Colour::new(1, 20, 255))), Ok(()));
    assert_eq!(terminal.set_bg(Some(Colour::grey())), Ok(()));
    assert_eq!(terminal.set_fg(None), Ok(()));
    assert_eq!(terminal.set_bg(None), Ok(()));
    assert_eq!(terminal.render_string("hi", (0, 0)), Ok(()));
    assert_eq!(terminal.render_char('か', (9, 99)), Ok(()));
    assert_eq!(terminal.render_bytes(b"!", (65535, 65535)), Ok(()));
    assert_eq!(terminal.render_string_unpositioned("?"), Ok(()));
    assert_eq!(
        drawn(&terminal),
        "\x1B[38;2;1;20;255m\x1B[48;2;127;127;127m\x1B[39m\x1B[49m\x1B[1;1Hhi\x1B[100;10Hか\x1B[65536;65536H!?"
    );
}

#[test]
fn a_full_output_buffer_draws_nothing() {
    let mut terminal = Terminal::default();
    let big = vec![b'x'; 1_003_519];
    assert_eq!(terminal.try_write(&big), Ok(()));
    assert_eq!(terminal.render_string("hi", (0, 0)), Err(Error::OutOfMemoryAddresses));
    assert_eq!(terminal.output_buffer.len(), 1_003_519);
    assert_eq!(terminal.try_write(b"y"), Ok(()));
    assert_eq!(terminal.try_write(b"z"), Err(Error::OutOfMemoryAddresses));
    let button = Button::new("ok");
    assert_eq!(button.draw(&mut terminal).err(), Some(Error::OutOfMemoryAddresses));
    assert_eq!(terminal.output_buffer.len(), 1_003_520);
}

#[test]
fn shapes_are_drawn_row_by_row() {
    assert_eq!(RawString { x: 1, y: 2, text: "é" }.bytes(), "\x1B[3;2Hé".as_bytes());
    assert_eq!(
        Rect { x: 1, y: 2, width: 3, height: 2 }.bytes(),
        b"\x1B[3;2H   \x1B[4;2H   "
    );
    assert_eq!(Rect { x: 1, y: 2, width: 3, height: 0 }.bytes(), b"");
    let border = Border { x: 0, y: 0, width: 4, height: 3, style: BorderStyle::ascii() };
    assert_eq!(
        String::from_utf8(border.bytes()).unwrap(),
        "\x1B[1;1H*\x1B[1;2H--\x1B[1;4H*\x1B[3;4H*\x1B[3;2H--\x1B[3;1H*\x1B[2;1H|\x1B[2;4H|"
    );
    let flat = Border { x: 5, y: 5, width: 2, height: 1, style: BorderStyle::double() };
    assert_eq!(
        String::from_utf8(flat.bytes()).unwrap(),
        "\x1B[6;6H╔\x1B[6;7H\x1B[6;7H╗\x1B[6;7H╝\x1B[6;7H\x1B[6;6H╚"
    );
    assert_eq!(BorderStyle::round().top_left, '╭');
    assert_eq!(BorderStyle::normal().bottom_right, '┘');
    assert_eq!(BorderStyle::heavy().left, '┃');
    let mut terminal = Terminal::new();
    assert_eq!(terminal.draw(Rect { x: 0, y: 0, width: 1, height: 1 }), Ok(()));
    assert_eq!(drawn(&terminal), "\x1B[1;1H ");
}

#[test]
fn text_is_placed_and_cut() {
    let frame = Frame { x: 10, y: 20, width: 8, height: 5 };
    let text = Text::new("abcd").frame(frame).horizontal_overflow(HorizontalOverflowStyle::Clip);
    assert_eq!(String::from_utf8(text.bytes()).unwrap(), "\x1B[23;13Habcd");
    let text = Text::new("abcd")
        .frame(frame)
        .horizontal_overflow(HorizontalOverflowStyle::Overflow)
        .horizontal_anchor(HAlign::Right)
        .vertical_anchor(VAlign::Bottom);
    assert_eq!(String::from_utf8(text.bytes()).unwrap(), "\x1B[25;15Habcd");
    let text = Text::new("abcdefghij")
        .x(10)
        .y(20)
        .width(8)
        .height(5)
        .horizontal_overflow(HorizontalOverflowStyle::Clip)
        .horizontal_anchor(HAlign::Left)
        .vertical_anchor(VAlign::Top);
    assert_eq!(String::from_utf8(text.bytes()).unwrap(), "\x1B[21;11Habcdefgh");
    let text = Text::new("abcdefghij")
        .frame(frame)
        .horizontal_overflow(HorizontalOverflowStyle::ClipWithChar('…'))
        .vertical_anchor(VAlign::Top)
        .text_style(TextStyle::Bold | TextStyle::Strikethrough)
        .text_style(TextStyleFlags::from_flag(TextStyle::Inverse));
    assert_eq!(
        String::from_utf8(text.bytes()).unwrap(),
        "\x1B[1m\x1B[7m\x1B[9m\x1B[21;11Habcdefg\x1B[21;17H…\x1B[0m"
    );
    assert_eq!(Text::new("x").text_colour(Some(Colour::red())).text_colour, Some(Colour::red()));
    assert_eq!(
        Text::new("x").background_colour(Some(Colour::blue())).background_colour,
        Some(Colour::blue())
    );
}

#[test]
fn a_button_follows_the_mouse() {
    let mut terminal = Terminal::new();
    let button = Button::new("ok").x(1).y(1).width(6).height(3).border(Some(BorderStyle::ascii()));
    terminal.mouse_pos = (0, 0);
    assert_eq!(button.state(&terminal).state, ButtonState::Inactive);
    terminal.mouse_pos = (2, 2);
    assert_eq!(button.state(&terminal).state, ButtonState::Hovered);
    assert!(button.hovered(&terminal));
    assert!(!button.clicked(&terminal));
    terminal.released_mouse_buttons.push(0);
    assert_eq!(button.state(&terminal).state, ButtonState::Released);
    terminal.held_mouse_buttons.push(0);
    assert_eq!(button.state(&terminal).state, ButtonState::Held);
    assert!(button.clicked(&terminal));
    terminal.clicked_mouse_buttons.push(0);
    let out = button.draw(&mut terminal).unwrap();
    assert_eq!(out.state, ButtonState::Pressed);
    assert!(out.hovered);
    assert_eq!(
        drawn(&terminal),
        "\x1B[49m\x1B[39m\x1B[2;2H*\x1B[2;3H----\x1B[2;7H*\x1B[4;7H*\x1B[4;3H----\x1B[4;2H*\x1B[3;2H|\x1B[3;7H|\x1B[3;4Hok"
    );
    assert_eq!(ButtonState::default(), ButtonState::Inactive);
    let plain = Button::new("ok")
        .label("go")
        .border(None)
        .frame(Frame { x: 0, y: 0, width: 2, height: 1 })
        .text_colour(Some(Colour::green()))
        .border_colour(Some(Colour::black()))
        .background_colour(Some(Colour::new(1, 2, 3)));
    assert_eq!(String::from_utf8(plain.bytes()).unwrap(), "\x1B[48;2;1;2;3m\x1B[1;1Hgo");
}

#[test]
fn a_checkbox_flips_once_per_click() {
    let mut terminal = Terminal::new();
    let mut cache = CheckboxCache::default();
    let checkbox = Checkbox::new("on", UniqKey::new(1)).checked_char('x').unchecked_char('o');
    terminal.mouse_pos = (3, 0);
    assert!(!checkbox.draw(&mut cache, &mut terminal).unwrap().checked);
    terminal.held_mouse_buttons.push(0);
    assert!(checkbox.draw(&mut cache, &mut terminal).unwrap().checked);
    assert!(checkbox.draw(&mut cache, &mut terminal).unwrap().checked);
    terminal.held_mouse_buttons.clear();
    assert!(checkbox.draw(&mut cache, &mut terminal).unwrap().checked);
    terminal.held_mouse_buttons.push(0);
    assert!(!checkbox.draw(&mut cache, &mut terminal).unwrap().checked);
    assert_eq!(cache, CheckboxCache { checked: false, mouse_held: true });
    assert_eq!(CheckboxCache::from_bytes(&cache.to_bytes()), cache);
    assert_eq!(CheckboxCache::from_bytes(&[1]), CheckboxCache::default());
    assert_eq!(
        String::from_utf8(checkbox.bytes(true)).unwrap(),
        "\x1B[39m\x1B[1;1Hx\x1B[1;3Hon"
    );
    let narrow = Checkbox::new("a long label", UniqKey::new(1))
        .label("long label")
        .text_colour(Some(Colour::white()));
    assert_eq!(
        String::from_utf8(narrow.bytes(false)).unwrap(),
        "\x1B[38;2;255;255;255m\x1B[1;1H☐\x1B[1;3Hlong la\x1B[1;9H…"
    );
    assert_eq!(narrow.figure(true), '🗹');
}

#[test]
fn keys_are_read_from_escape_sequences() {
    assert_eq!(read_events(b""), vec![]);
    assert_eq!(read_events(b"\x1B"), vec![InputEvent::Key(Key::Escape)]);
    assert_eq!(
        read_events(b"\x1B[A\x1B[B\x1B[C\x1B[D"),
        vec![
            InputEvent::Key(Key::ArrowUp),
            InputEvent::Key(Key::ArrowDown),
            InputEvent::Key(Key::ArrowRight),
            InputEvent::Key(Key::ArrowLeft),
        ]
    );
    assert_eq!(
        read_events(b"\x1B[5~\x1B[6~\x1B[1~\x1B[7~\x1B[4~\x1B[8~\x1B[3~\x1B[9~"),
        vec![
            InputEvent::Key(Key::PageUp),
            InputEvent::Key(Key::PageDown),
            InputEvent::Key(Key::Home),
            InputEvent::Key(Key::Home),
            InputEvent::Key(Key::End),
            InputEvent::Key(Key::End),
            InputEvent::Key(Key::Delete),
        ]
    );
    assert_eq!(
        read_events(b"\x1B[H"),
        vec![InputEvent::Key(Key::Home)]
    );
    // The byte behind the letter is read with it.
    assert_eq!(
        read_events(b"\x1B[Fx\x1B[OxF\x1B[OxH\x1B[Oxy\x1B[O"),
        vec![InputEvent::Key(Key::End), InputEvent::Key(Key::End), InputEvent::Key(Key::Home)]
    );
    assert_eq!(
        read_events(b"\x1B[OH\x1B[OF"),
        vec![
            InputEvent::Key(Key::Text('[')),
            InputEvent::Key(Key::Text('O')),
            InputEvent::Key(Key::Text('F')),
        ]
    );
    assert_eq!(read_events(b"\x1Bx\x1B["), vec![]);
    assert_eq!(
        read_events("ab\x7Fか\x1B[A!".as_bytes()),
        vec![
            InputEvent::Key(Key::Text('a')),
            InputEvent::Key(Key::Text('b')),
            InputEvent::Key(Key::Backspace),
            InputEvent::Key(Key::Text('か')),
            InputEvent::Key(Key::ArrowUp),
            InputEvent::Key(Key::Text('!')),
        ]
    );
    // Text that is no UTF-8 is dropped up to the next escape.
    assert_eq!(
        read_events(b"a\xFFb\x1B[Ac"),
        vec![InputEvent::Key(Key::ArrowUp), InputEvent::Key(Key::Text('c'))]
    );
    assert_eq!(Key::ArrowUp.name(), Some("up"));
    assert_eq!(Key::PageDown.name(), Some("page-down"));
    assert_eq!(Key::Text('x').name(), None);
    assert_eq!(Key::Text('x').text(), Some('x'));
    assert_eq!(Key::End.text(), None);
}

#[test]
fn the_mouse_is_read_from_escape_sequences() {
    assert_eq!(
        read_events(b"\x1B[<0;12;7M\x1B[<0;12;7m"),
        vec![
            InputEvent::Mouse { code: 0, x: 12, y: 7, down: true },
            InputEvent::Mouse { code: 0, x: 12, y: 7, down: false },
        ]
    );
    assert_eq!(
        read_events(b"\x1B[<65;1"),
        vec![InputEvent::Mouse { code: 65, x: 1, y: 0, down: false }]
    );
    assert_eq!(
        read_events(b"\x1B[<"),
        vec![InputEvent::Mouse { code: 0, x: 0, y: 0, down: false }]
    );
    let mut terminal = Terminal::new();
    terminal.read_input(b"\x1B[<0;12;7Mq");
    assert_eq!(terminal.mouse_pos, (11, 6));
    assert_eq!(terminal.clicked_mouse_buttons, vec![0]);
    assert_eq!(terminal.pressed_keys, vec![Key::Text('q')]);
    // The next frame: what was clicked is held, and a second press of a
    // held button is no click.
    let frame = terminal.end_frame((80, 24), b"\x1B[<0;1;1Mqq");
    assert_eq!(frame, b"\x1B[0m\x1B[2J\x1B[H\x1B[?25l");
    assert_eq!(terminal.size, (80, 24));
    assert_eq!(terminal.held_mouse_buttons, vec![0]);
    assert_eq!(terminal.clicked_mouse_buttons, vec![]);
    assert_eq!(terminal.pressed_keys, vec![Key::Text('q')]);
    assert_eq!(terminal.mouse_pos, (0, 0));
    terminal.read_input(b"\x1B[<28;3;4m");
    assert_eq!(terminal.held_mouse_buttons, vec![]);
    assert_eq!(terminal.released_mouse_buttons, vec![0]);
    assert_eq!(
        terminal.modifier_keys,
        ModifierKeys { shift: true, meta: true, control: true }
    );
    terminal.read_input(b"\x1B[<64;3;4M\x1B[<2;9;9M\x1B[<130;9;9M");
    assert_eq!(terminal.scroll_direction, None);
    assert_eq!(terminal.clicked_mouse_buttons, vec![3, 2, 9]);
    assert_eq!(terminal.mouse_pos, (8, 8));
    terminal.read_input(b"\x1B[<66;3;4M");
    assert_eq!(terminal.scroll_direction, Some(ScrollDirection::Forwards));
    terminal.read_input(b"\x1B[<65;3;4M");
    assert_eq!(terminal.scroll_direction, Some(ScrollDirection::Backwards));
    assert_eq!(terminal.mouse_pos, (8, 8));
    terminal.target_cursor_location = Some((4, 2));
    terminal.render_string_unpositioned("drawn").unwrap();
    let frame = terminal.end_frame((1, 1), b"");
    assert_eq!(frame, b"\x1B[0m\x1B[2J\x1B[Hdrawn\x1B[3;5H\x1B[?25h");
    assert_eq!(terminal.output_buffer.len(), 0);
    assert_eq!(terminal.target_cursor_location, None);
    assert_eq!(terminal.held_mouse_buttons, vec![3, 2, 9]);
    assert_eq!(terminal.released_mouse_buttons, vec![]);
}

#[test]
fn messages_of_the_interface() {
    let mut terminal = Terminal::new();
    assert!(tui_msg_handler(&mut terminal, TuiMsg::UpdateTerminal));
    assert!(!terminal.exit);
    assert!(!tui_msg_handler(&mut terminal, TuiMsg::ExitRunloop));
    assert!(terminal.exit);
    assert_eq!(TuiMsg::from_byte(TuiMsg::ExitRunloop.to_byte()), Some(TuiMsg::ExitRunloop));
    assert_eq!(TuiMsg::from_byte(TuiMsg::UpdateTerminal.to_byte()), Some(TuiMsg::UpdateTerminal));
    assert_eq!(TuiMsg::from_byte(2), None);
    assert_eq!(TuiRunloop::default().fps, 60);
    assert_eq!(TuiRunloop::new(30).nanos_between_frames(), 33_333_333);

    let mut world = World::new();
    assert!(world.add_plugin(tui_handler(), TuiPlugin::default()));
    let mut app = App(&mut world);
    assert_eq!(app.exit(), Ok(()));
    assert_eq!(app.draw(&mut terminal, RawString { x: 0, y: 0, text: "a" }), Ok(()));
    let msgs = world.apply_msgs();
    assert_eq!(msgs.len(), 1);
    assert_eq!(msgs[0].handler, tui_handler());
    assert_eq!(msgs[0].target, Some(vec![]));
    assert_eq!(TuiMsg::from_byte(msgs[0].payload[0]), Some(TuiMsg::ExitRunloop));
    assert!(world.try_add_msg_handler(tui_handler(), &[1]));
}

#[test]
fn clusters_start_behind_the_clusters_in_front() {
    assert_eq!(grapheme_start(&[1, 2, 3], 0), Some(0));
    assert_eq!(grapheme_start(&[1, 2, 3], 1), Some(1));
    assert_eq!(grapheme_start(&[1, 2, 3], 2), Some(3));
    assert_eq!(grapheme_start(&[1, 2, 3], 3), None);
    assert_eq!(grapheme_start(&[], 0), None);
    assert_eq!(grapheme_start(&[usize::MAX, 1, 1], 2), None);
    assert_eq!(plan_edit(&[1, 2], 3, 1, Key::Text('x')), Edit::Insert(1, 'x'));
    assert_eq!(plan_edit(&[1, 2], 3, 2, Key::Text('x')), Edit::Insert(3, 'x'));
    assert_eq!(plan_edit(&[1, 9], 3, 1, Key::Delete), Edit::Remove(1));
    assert_eq!(plan_edit(&[1, 2], 3, 2, Key::Delete), Edit::Nothing);
    assert_eq!(plan_edit(&[1, 2], 3, 2, Key::Backspace), Edit::Remove(1));
    assert_eq!(plan_edit(&[1, 2], 3, 0, Key::Backspace), Edit::Nothing);
    assert_eq!(plan_edit(&[5, 2], 3, 2, Key::Backspace), Edit::Nothing);
    assert_eq!(plan_edit(&[1, 2], 3, 1, Key::ArrowLeft), Edit::Nothing);
    assert_eq!(window_of(&[1, 2, 1, 1], 5, 1, 1), (1, 4));
    assert_eq!(window_of(&[1, 2, 1, 1], 5, 1, 2), (1, 5));
    assert_eq!(window_of(&[1, 2, 1, 1], 5, 4, 2), (0, 5));
    assert_eq!(window_of(&[1, 9, 1, 1], 5, 1, 1), (0, 5));
}

#[test]
fn the_cursor_follows_the_keys() {
    let cache = TextInputCache { cursor_pos: 3, focused: true, render_offset: 1 };
    let moved = |key, edit, before, after, max| move_cursor(cache, key, edit, before, after, max);
    // The cursor stood at the end of the window: the window moves with it.
    assert_eq!(
        moved(Key::Text('x'), Edit::Insert(3, 'x'), 5, 6, 2),
        TextInputCache { cursor_pos: 4, focused: true, render_offset: 2 }
    );
    assert_eq!(
        moved(Key::Text('x'), Edit::Insert(3, 'x'), 5, 6, 8),
        TextInputCache { cursor_pos: 4, focused: true, render_offset: 1 }
    );
    assert_eq!(moved(Key::Text('x'), Edit::Insert(3, 'x'), 3, 3, 8), cache);
    assert_eq!(
        moved(Key::ArrowLeft, Edit::Nothing, 5, 5, 8),
        TextInputCache { cursor_pos: 2, focused: true, render_offset: 1 }
    );
    assert_eq!(
        move_cursor(
            TextInputCache { cursor_pos: 1, focused: true, render_offset: 1 },
            Key::ArrowLeft,
            Edit::Nothing,
            5,
            5,
            8
        ),
        TextInputCache { cursor_pos: 0, focused: true, render_offset: 0 }
    );
    assert_eq!(moved(Key::ArrowRight, Edit::Nothing, 3, 3, 8), cache);
    assert_eq!(
        moved(Key::ArrowRight, Edit::Nothing, 5, 5, 2),
        TextInputCache { cursor_pos: 4, focused: true, render_offset: 2 }
    );
    assert_eq!(
        moved(Key::ArrowRight, Edit::Nothing, 5, 5, 8),
        TextInputCache { cursor_pos: 4, focused: true, render_offset: 1 }
    );
    assert_eq!(
        moved(Key::Backspace, Edit::Remove(2), 5, 4, 8),
        TextInputCache { cursor_pos: 2, focused: true, render_offset: 0 }
    );
    assert_eq!(moved(Key::Backspace, Edit::Nothing, 5, 5, 8), cache);
    assert_eq!(
        moved(Key::Delete, Edit::Remove(3), 5, 4, 8),
        TextInputCache { cursor_pos: 3, focused: true, render_offset: 0 }
    );
    assert_eq!(moved(Key::Escape, Edit::Nothing, 5, 5, 8), cache);
    assert_eq!(
        TextInputCache::default(),
        TextInputCache { cursor_pos: 0, focused: false, render_offset: 0 }
    );
}

#[test]
fn a_text_input_edits_by_grapheme_clusters() {
    // "e" with an acute accent is one cluster of two characters.
    let mut buffer = chars("ae\u{301}b");
    let mut cache = TextInputCache { cursor_pos: 2, focused: true, render_offset: 0 };
    let mut input = TextInput::new(&mut buffer, UniqKey::new(1));
    assert_eq!(input.max_renderable_graphemes(), 8);
    input.handle_keypress(&mut cache, Key::Text('x'));
    assert_eq!(cache.cursor_pos, 3);
    input.handle_keypress(&mut cache, Key::ArrowLeft);
    input.handle_keypress(&mut cache, Key::Backspace);
    assert_eq!(cache.cursor_pos, 1);
    input.handle_keypress(&mut cache, Key::Delete);
    input.handle_keypress(&mut cache, Key::ArrowRight);
    input.handle_keypress(&mut cache, Key::ArrowRight);
    input.handle_keypress(&mut cache, Key::ArrowRight);
    assert_eq!(cache.cursor_pos, 2);
    input.handle_keys(&mut cache, &[Key::Text('!'), Key::Home]);
    assert_eq!(cache.cursor_pos, 3);
    assert_eq!(buffer, chars("a\u{301}b!"));
}

#[test]
fn a_text_input_is_drawn_with_its_border() {
    let mut terminal = Terminal::new();
    let mut cache = TextInputCache::default();
    let mut buffer = Vec::new();
    let mut input = TextInput::new(&mut buffer, UniqKey::new(1))
        .border(Some(BorderStyle::ascii()))
        .placeholder("name")
        .text_style(TextStyleFlags::from_flag(TextStyle::Dim));
    input.frame = Frame { x: 0, y: 0, width: 6, height: 9 };
    assert_eq!(input.max_renderable_graphemes(), 4);
    assert!(!input.draw(&mut cache, &mut terminal).unwrap().focused);
    assert_eq!(
        drawn(&terminal),
        "\x1B[49m\x1B[38;2;127;127;127m\x1B[2m\x1B[3;2Hname\x1B[0m\x1B[39m\x1B[1;1H*\x1B[1;2H----\x1B[1;6H*\x1B[3;6H*\x1B[3;2H----\x1B[3;1H*\x1B[2;1H|\x1B[2;6H|"
    );
    // A click inside gives the focus; the keys of the frame are typed.
    terminal.end_frame((80, 24), b"\x1B[<0;2;2Mworld!");
    assert!(input.draw(&mut cache, &mut terminal).unwrap().focused);
    assert_eq!(cache, TextInputCache { cursor_pos: 6, focused: true, render_offset: 2 });
    assert_eq!(terminal.target_cursor_location, Some((5, 1)));
    assert!(drawn(&terminal).starts_with("\x1B[49m\x1B[39m\x1B[2m\x1B[3;2Hrld!\x1B[0m\x1B[39m\x1B[1;1H*"));
    // A key that is pressed twice in a frame counts once.
    terminal.end_frame((80, 24), b"!!\x1B[<0;2;2m");
    assert!(input.draw(&mut cache, &mut terminal).unwrap().focused);
    // A click outside takes the focus, and keys are typed no more.
    terminal.end_frame((80, 24), b"\x1B[<0;20;20Mx");
    assert!(!input.draw(&mut cache, &mut terminal).unwrap().focused);
    assert_eq!(buffer, chars("world!!"));
}

#[test]
fn exiting_leaves_the_rest_of_the_terminal() {
    let mut terminal = Terminal::new();
    terminal.size = (80, 24);
    terminal.mouse_pos = (3, 4);
    terminal.target_cursor_location = Some((5, 6));
    terminal.held_mouse_buttons.push(0);
    assert_eq!(terminal.render_string("ab", (1, 2)), Ok(()));
    let drawn_before = drawn(&terminal);
    assert!(!tui_msg_handler(&mut terminal, TuiMsg::ExitRunloop));
    assert!(terminal.exit);
    assert_eq!(terminal.size, (80, 24));
    assert_eq!(terminal.mouse_pos, (3, 4));
    assert_eq!(terminal.target_cursor_location, Some((5, 6)));
    assert_eq!(terminal.held_mouse_buttons, vec![0]);
    assert_eq!(drawn(&terminal), drawn_before);
}
