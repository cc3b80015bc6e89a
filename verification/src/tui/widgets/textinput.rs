//! A single-line text input field.

use crate::datatypes::arenavec::Error;
use crate::datatypes::uniq::UniqKey;
use crate::tui::colour::Colour;
use crate::tui::input::Key;
use crate::tui::shapes::{Border, BorderStyle, Shape};
use crate::tui::terminal::{
    append_bytes, bg_sequence, colour_bytes, encode_char, fg_sequence, has_button, holds, Terminal,
};
use crate::tui::text_style::TextStyleFlags;
use crate::tui::widgets::text::{
    clamped_sum, draw_text, text_bytes, HorizontalOverflowStyle,
};
use crate::tui::widgets::{Frame, HAlign, VAlign};
use vstd::prelude::*;
use vstd::string::{StrSliceExecFns, StringSliceAdditionalSpecFns};
use vstd::utf8::encode_scalar;

verus! {

/// How many characters each grapheme cluster of a text has, cluster by
/// cluster: what the segmentation of Unicode says of the text.
pub uninterp spec fn grapheme_lengths(text: Seq<char>) -> Seq<usize>;

/// How many characters `text` has.
pub fn char_count(text: &str) -> (count: usize)
    ensures
        count == text@.len(),
{
    text.unicode_len()
}

/// How many characters each grapheme cluster of `text` has.
///
/// Wraps `UnicodeSegmentation::graphemes` of the crate
/// `unicode_segmentation`, for extended grapheme clusters: the text is
/// handed over as a string, and each cluster that comes back is counted.
/// What comes back depends on the text alone.
#[verifier::external_body]
fn grapheme_lengths_of(text: &[char]) -> (lengths: Vec<usize>)
    ensures
        lengths@ == grapheme_lengths(text@),
{
    let text: String = text.iter().collect();
    unicode_segmentation::UnicodeSegmentation::graphemes(text.as_str(), true)
        .map(|cluster| char_count(cluster))
        .collect()
}

/// Where the grapheme cluster `index` starts in a text, counted in
/// characters: behind the clusters in front of it. `None` where the text
/// has no such cluster.
pub open spec fn start_of(lengths: Seq<usize>, index: int) -> Option<int>
    decreases index,
{
    if index < 0 || index >= lengths.len() {
        None
    } else if index == 0 {
        Some(0)
    } else {
        Some(start_of(lengths, index - 1).unwrap() + lengths[index - 1])
    }
}

/// Where the grapheme cluster `index` starts in a text whose clusters have
/// the lengths `lengths`, or `None` where the text has no such cluster or
/// the start cannot be counted.
pub fn grapheme_start(lengths: &[usize], index: usize) -> (start: Option<usize>)
    ensures
        start == (match start_of(lengths@, index as int) {
            Some(s) => if s <= usize::MAX {
                Some(s as usize)
            } else {
                None
            },
            None => None,
        }),
{
    if index >= lengths.len() {
        return None;
    }
    let mut start: usize = 0;
    let mut idx: usize = 0;
    while idx < index
        invariant
            idx <= index < lengths@.len(),
            start_of(lengths@, idx as int) == Some(start as int),
        decreases index - idx,
    {
        proof {
            lemma_starts_grow(lengths@, idx + 1, index as int);
        }
        match start.checked_add(lengths[idx]) {
            Some(next) => {
                start = next;
            },
            None => {
                return None;
            },
        }
        idx = idx + 1;
    }
    Some(start)
}

/// A cluster starts no earlier than the clusters in front of it.
pub proof fn lemma_starts_grow(lengths: Seq<usize>, first: int, second: int)
    requires
        0 <= first <= second < lengths.len(),
    ensures
        start_of(lengths, first) is Some,
        start_of(lengths, second) is Some,
        0 <= start_of(lengths, first).unwrap() <= start_of(lengths, second).unwrap(),
    decreases second,
{
    if second > 0 {
        if first < second {
            lemma_starts_grow(lengths, first, second - 1);
        } else {
            lemma_starts_grow(lengths, first - 1, second - 1);
        }
    }
}

/// What a text input remembers from frame to frame.
#[derive(Clone, Copy, Debug, PartialEq, Eq)]
pub struct TextInputCache {
    /// The position of the cursor in this text input. This is in
    /// graphemes, not in characters.
    pub cursor_pos: usize,
    /// If the text input is currently focused
    pub focused: bool,
    /// The grapheme at which the input starts to show its text. This is
    /// used, for example, when the text is longer than the text input and
    /// the user has moved to a part of it that lies behind what fits.
    pub render_offset: usize,
}

impl Default for TextInputCache {
    fn default() -> (cache: Self)
        ensures
            cache == (TextInputCache { cursor_pos: 0, focused: false, render_offset: 0 }),
    {
        Self { cursor_pos: 0, focused: false, render_offset: 0 }
    }
}

/// One less than `n`, or zero.
pub open spec fn less_one(n: usize) -> usize {
    if n > 0 {
        (n - 1) as usize
    } else {
        0
    }
}

/// One more than `n`, or the largest number.
pub open spec fn plus_one(n: usize) -> usize {
    if n < usize::MAX {
        (n + 1) as usize
    } else {
        n
    }
}

/// What a key does to a text.
#[derive(Clone, Copy, Debug, PartialEq, Eq)]
pub enum Edit {
    /// The character goes in at this place of the text.
    Insert(usize, char),
    /// The character at this place of the text goes out.
    Remove(usize),
    /// The text stays as it is.
    Nothing,
}

/// What `key` does to a text of `len` characters whose grapheme clusters
/// have the lengths `lengths`, with the cursor at the cluster `cursor_pos`.
///
/// A character goes in where the cluster under the cursor starts, or at
/// the end of the text where there is no such cluster. Backspace takes the
/// first character of the cluster in front of the cursor out, delete that
/// of the cluster under the cursor.
pub open spec fn edit_for(lengths: Seq<usize>, len: int, cursor_pos: usize, key: Key) -> Edit {
    match key {
        Key::Text(figure) => match start_of(lengths, cursor_pos as int) {
            Some(start) => if start <= len {
                Edit::Insert(start as usize, figure)
            } else {
                Edit::Insert(len as usize, figure)
            },
            None => Edit::Insert(len as usize, figure),
        },
        Key::Backspace => if cursor_pos > 0 {
            match start_of(lengths, cursor_pos - 1) {
                Some(start) => if start < len {
                    Edit::Remove(start as usize)
                } else {
                    Edit::Nothing
                },
                None => Edit::Nothing,
            }
        } else {
            Edit::Nothing
        },
        Key::Delete => match start_of(lengths, cursor_pos as int) {
            Some(start) => if start < len {
                Edit::Remove(start as usize)
            } else {
                Edit::Nothing
            },
            None => Edit::Nothing,
        },
        _ => Edit::Nothing,
    }
}

/// A text after an edit.
pub open spec fn edited(text: Seq<char>, edit: Edit) -> Seq<char> {
    match edit {
        Edit::Insert(at, figure) => text.insert(at as int, figure),
        Edit::Remove(at) => text.remove(at as int),
        Edit::Nothing => text,
    }
}

/// What a text input remembers after `key`, which did `edit` to a text
/// that had `before` grapheme clusters and has `after` of them now, in an
/// input that shows `max` clusters at once.
///
/// - Text moves the cursor on, and the window with it where the cursor
///   stood at its end.
/// - The arrows move the cursor by one cluster, not beyond the text, and
///   the window with it where the cursor stands at its edge.
/// - Backspace that took something out moves the cursor and the window
///   back; delete that took something out moves the window back.
pub open spec fn cache_after(
    cache: TextInputCache,
    key: Key,
    edit: Edit,
    before: int,
    after: int,
    max: u16,
) -> TextInputCache {
    match key {
        Key::Text(_) => if cache.cursor_pos >= cache.render_offset && cache.cursor_pos
            - cache.render_offset == max {
            TextInputCache {
                cursor_pos: plus_one(cache.cursor_pos),
                render_offset: plus_one(cache.render_offset),
                ..cache
            }
        } else if cache.cursor_pos < after {
            TextInputCache { cursor_pos: plus_one(cache.cursor_pos), ..cache }
        } else {
            cache
        },
        Key::ArrowLeft => TextInputCache {
            cursor_pos: less_one(cache.cursor_pos),
            render_offset: if cache.cursor_pos == cache.render_offset {
                less_one(cache.render_offset)
            } else {
                cache.render_offset
            },
            ..cache
        },
        Key::ArrowRight => if cache.cursor_pos >= before {
            cache
        } else {
            TextInputCache {
                cursor_pos: plus_one(cache.cursor_pos),
                render_offset: if cache.cursor_pos == cache.render_offset + max {
                    plus_one(cache.render_offset)
                } else {
                    cache.render_offset
                },
                ..cache
            }
        },
        Key::Backspace => if edit is Remove {
            TextInputCache {
                cursor_pos: less_one(cache.cursor_pos),
                render_offset: less_one(cache.render_offset),
                ..cache
            }
        } else {
            cache
        },
        Key::Delete => if edit is Remove {
            TextInputCache { render_offset: less_one(cache.render_offset), ..cache }
        } else {
            cache
        },
        _ => cache,
    }
}

/// What `key` does to a text of `len` characters whose grapheme clusters
/// have the lengths `lengths`, with the cursor at the cluster `cursor_pos`.
pub fn plan_edit(lengths: &[usize], len: usize, cursor_pos: usize, key: Key) -> (edit: Edit)
    ensures
        edit == edit_for(lengths@, len as int, cursor_pos, key),
        edit matches Edit::Insert(at, _) ==> at <= len,
        edit matches Edit::Remove(at) ==> at < len,
{
    proof {
        if cursor_pos < lengths@.len() {
            lemma_starts_grow(lengths@, cursor_pos as int, cursor_pos as int);
        }
        if 0 < cursor_pos <= lengths@.len() {
            lemma_starts_grow(lengths@, cursor_pos - 1, cursor_pos - 1);
        }
    }
    match key {
        Key::Text(figure) => match grapheme_start(lengths, cursor_pos) {
            Some(start) => if start <= len {
                Edit::Insert(start, figure)
            } else {
                Edit::Insert(len, figure)
            },
            None => Edit::Insert(len, figure),
        },
        Key::Backspace => if cursor_pos > 0 {
            match grapheme_start(lengths, cursor_pos - 1) {
                Some(start) => if start < len {
                    Edit::Remove(start)
                } else {
                    Edit::Nothing
                },
                None => Edit::Nothing,
            }
        } else {
            Edit::Nothing
        },
        Key::Delete => match grapheme_start(lengths, cursor_pos) {
            Some(start) => if start < len {
                Edit::Remove(start)
            } else {
                Edit::Nothing
            },
            None => Edit::Nothing,
        },
        _ => Edit::Nothing,
    }
}

/// What a text input remembers after `key`.
pub fn move_cursor(
    cache: TextInputCache,
    key: Key,
    edit: Edit,
    before: usize,
    after: usize,
    max: u16,
) -> (moved: TextInputCache)
    ensures
        moved == cache_after(cache, key, edit, before as int, after as int, max),
{
    let mut moved = cache;
    match key {
        Key::Text(_) => {
            if cache.cursor_pos >= cache.render_offset && cache.cursor_pos - cache.render_offset
                == max as usize {
                moved.render_offset = cache.render_offset.saturating_add(1);
                moved.cursor_pos = cache.cursor_pos.saturating_add(1);
            } else if cache.cursor_pos < after {
                moved.cursor_pos = cache.cursor_pos.saturating_add(1);
            }
        },
        Key::ArrowLeft => {
            // Check if we need to scroll
            if cache.cursor_pos == cache.render_offset {
                moved.render_offset = cache.render_offset.saturating_sub(1);
            }
            // Move the cursor back one
            moved.cursor_pos = cache.cursor_pos.saturating_sub(1);
        },
        Key::ArrowRight => {
            // Don't go past the end of the text
            if cache.cursor_pos < before {
                // Check if we need to scroll
                if cache.render_offset <= usize::MAX - max as usize && cache.cursor_pos
                    == cache.render_offset + max as usize {
                    moved.render_offset = cache.render_offset.saturating_add(1);
                }
                // Move the cursor forwards one
                moved.cursor_pos = cache.cursor_pos.saturating_add(1);
            }
        },
        Key::Backspace => {
            match edit {
                Edit::Remove(_) => {
                    moved.cursor_pos = cache.cursor_pos.saturating_sub(1);
                    moved.render_offset = cache.render_offset.saturating_sub(1);
                },
                _ => {},
            }
        },
        Key::Delete => {
            match edit {
                Edit::Remove(_) => {
                    moved.render_offset = cache.render_offset.saturating_sub(1);
                },
                _ => {},
            }
        },
        _ => {},
    }
    moved
}

pub struct TextInputOut {
    pub focused: bool,
}

pub struct TextInput<'a> {
    pub buffer: &'a mut Vec<char>,
    pub placeholder: Option<&'a str>,
    pub placeholder_colour: Option<Colour>,
    pub frame: Frame,
    pub cache_key: Option<UniqKey>,
    pub border_style: Option<BorderStyle>,
    pub border_colour: Option<Colour>,
    pub text_colour: Option<Colour>,
    pub background_colour: Option<Colour>,
    pub text_style: TextStyleFlags,
}

impl<'a> TextInput<'a> {
    pub fn new(buffer: &'a mut Vec<char>, cache_key: UniqKey) -> (input: Self)
        ensures
            *input.buffer == *old(buffer),
            *final(input.buffer) == *final(buffer),
            input.placeholder is None,
            input.placeholder_colour == Some(Colour { r: 127, g: 127, b: 127 }),
            input.frame == (Frame { x: 0, y: 0, width: 10, height: 3 }),
            input.cache_key == Some(cache_key),
            input.border_style == Some(BorderStyle::round()),
            input.border_colour is None,
            input.text_colour is None,
            input.background_colour is None,
            input.text_style.0 == 0,
    {
        Self {
            buffer,
            placeholder: None,
            placeholder_colour: Some(Colour::grey()),
            frame: Frame { x: 0, y: 0, width: 10, height: 3 },
            cache_key: Some(cache_key),
            border_style: Some(BorderStyle::round()),
            border_colour: None,
            text_colour: None,
            background_colour: None,
            text_style: TextStyleFlags(0),
        }
    }

    pub fn border(self, style: Option<BorderStyle>) -> (input: Self)
        ensures
            input == (TextInput { border_style: style, ..self }),
    {
        let mut input = self;
        input.border_style = style;
        input
    }

    pub fn placeholder(self, placeholder: &'a str) -> (input: Self)
        ensures
            input == (TextInput { placeholder: Some(placeholder), ..self }),
    {
        let mut input = self;
        input.placeholder = Some(placeholder);
        input
    }

    /// Adds the styles of `style` to those of the text.
    pub fn text_style(self, style: TextStyleFlags) -> (input: Self)
        ensures
            input == (TextInput { text_style: TextStyleFlags(self.text_style.0 | style.0), ..self }),
    {
        let mut input = self;
        input.text_style.merge(style);
        input
    }

    /// How many grapheme clusters the input shows at once: all that fit
    /// between the borders, if it has any.
    pub open spec fn spec_max_renderable_graphemes(&self) -> u16 {
        if self.border_style is Some {
            if self.frame.width >= 2 {
                (self.frame.width - 2) as u16
            } else {
                0u16
            }
        } else {
            self.frame.width
        }
    }

    /// How many grapheme clusters the input shows at once.
    pub fn max_renderable_graphemes(&self) -> (count: u16)
        ensures
            count == self.spec_max_renderable_graphemes(),
    {
        if self.border_style.is_some() {
            self.frame.width.saturating_sub(2)
        } else {
            self.frame.width
        }
    }

    /// Takes a key into account: the text is edited, and the cursor and
    /// the window of the input follow.
    pub fn handle_keypress(&mut self, cache: &mut TextInputCache, key: Key)
        ensures
            *final(final(self).buffer) == *final(old(self).buffer),
            *final(self) == (TextInput { buffer: final(self).buffer, ..*old(self) }),
            final(self).buffer@ == edited(
                old(self).buffer@,
                edit_for(
                    grapheme_lengths(old(self).buffer@),
                    old(self).buffer@.len() as int,
                    old(cache).cursor_pos,
                    key,
                ),
            ),
            *final(cache) == cache_after(
                *old(cache),
                key,
                edit_for(
                    grapheme_lengths(old(self).buffer@),
                    old(self).buffer@.len() as int,
                    old(cache).cursor_pos,
                    key,
                ),
                grapheme_lengths(old(self).buffer@).len() as int,
                grapheme_lengths(final(self).buffer@).len() as int,
                old(self).spec_max_renderable_graphemes(),
            ),
    {
        let max = self.max_renderable_graphemes();
        let lengths = grapheme_lengths_of(self.buffer.as_slice());
        let edit = plan_edit(lengths.as_slice(), self.buffer.len(), cache.cursor_pos, key);
        match edit {
            Edit::Insert(at, figure) => {
                self.buffer.insert(at, figure);
            },
            Edit::Remove(at) => {
                let _ = self.buffer.remove(at);
            },
            Edit::Nothing => {},
        }
        let after = grapheme_lengths_of(self.buffer.as_slice());
        *cache = move_cursor(*cache, key, edit, lengths.len(), after.len(), max);
    }
}

/// The bytes that stand for some characters in UTF-8.
pub open spec fn encoded(text: Seq<char>) -> Seq<u8>
    decreases text.len(),
{
    if text.len() == 0 {
        Seq::empty()
    } else {
        encoded(text.drop_last()) + encode_scalar(text.last() as u32)
    }
}

/// The bytes that stand for `text` in UTF-8.
pub fn encode_chars(text: &[char]) -> (bytes: Vec<u8>)
    ensures
        bytes@ == encoded(text@),
{
    let mut bytes: Vec<u8> = Vec::new();
    let mut idx: usize = 0;
    proof {
        assert(text@.take(0) =~= Seq::<char>::empty());
    }
    while idx < text.len()
        invariant
            idx <= text@.len(),
            bytes@ == encoded(text@.take(idx as int)),
        decreases text@.len() - idx,
    {
        proof {
            assert(text@.take(idx + 1).drop_last() =~= text@.take(idx as int));
        }
        let one = encode_char(text[idx]);
        append_bytes(&mut bytes, one.as_slice());
        idx = idx + 1;
    }
    proof {
        assert(text@.take(idx as int) =~= text@);
    }
    bytes
}

/// A text and what its input remembers after some keys, one after the
/// other.
pub open spec fn typed(text: Seq<char>, cache: TextInputCache, keys: Seq<Key>, max: u16) -> (Seq<char>, TextInputCache)
    decreases keys.len(),
{
    if keys.len() == 0 {
        (text, cache)
    } else {
        let so_far = typed(text, cache, keys.drop_last(), max);
        let edit = edit_for(
            grapheme_lengths(so_far.0),
            so_far.0.len() as int,
            so_far.1.cursor_pos,
            keys.last(),
        );
        let after = edited(so_far.0, edit);
        (
            after,
            cache_after(
                so_far.1,
                keys.last(),
                edit,
                grapheme_lengths(so_far.0).len() as int,
                grapheme_lengths(after).len() as int,
                max,
            ),
        )
    }
}

/// Keys do not change whether an input has the focus.
pub proof fn lemma_typed_keeps_focus(
    text: Seq<char>,
    cache: TextInputCache,
    keys: Seq<Key>,
    max: u16,
)
    ensures
        typed(text, cache, keys, max).1.focused == cache.focused,
    decreases keys.len(),
{
    if keys.len() > 0 {
        lemma_typed_keeps_focus(text, cache, keys.drop_last(), max);
    }
}

/// The part of a text that an input shows: from the cluster at which its
/// window starts to the cluster behind the one that ends it, or all of the
/// text where it has no such clusters in that order.
pub open spec fn window(lengths: Seq<usize>, len: int, render_offset: usize, max: u16) -> (int, int) {
    let start = match start_of(lengths, render_offset as int) {
        Some(start) => start,
        None => 0,
    };
    let end = match start_of(lengths, render_offset + 1 + max) {
        Some(end) => end,
        None => len,
    };
    if 0 <= start <= end <= len {
        (start, end)
    } else {
        (0, len)
    }
}

/// The part of a text that an input shows.
pub fn window_of(lengths: &[usize], len: usize, render_offset: usize, max: u16) -> (range: (usize, usize))
    ensures
        (range.0 as int, range.1 as int) == window(lengths@, len as int, render_offset, max),
        range.0 <= range.1 <= len,
{
    let count = lengths.len();
    proof {
        if render_offset < count {
            lemma_starts_grow(lengths@, render_offset as int, render_offset as int);
        }
        if render_offset + 1 + max < count {
            lemma_starts_grow(lengths@, render_offset + 1 + max, render_offset + 1 + max);
        }
    }
    // `None` stands for a start behind every place of the text.
    let start: Option<usize> = if render_offset < count {
        grapheme_start(lengths, render_offset)
    } else {
        Some(0)
    };
    let end: Option<usize> = if render_offset < count && max as usize + 1 < count - render_offset {
        grapheme_start(lengths, render_offset + 1 + max as usize)
    } else {
        Some(len)
    };
    match start {
        Some(start) => match end {
            Some(end) => if start <= end && end <= len {
                (start, end)
            } else {
                (0, len)
            },
            None => (0, len),
        },
        None => (0, len),
    }
}

impl<'a> TextInput<'a> {
    /// The frame of the input as it is drawn: three rows with a border, one
    /// row without.
    pub open spec fn spec_frame(&self) -> Frame {
        Frame {
            height: if self.border_style is Some {
                3
            } else {
                1
            },
            ..self.frame
        }
    }

    /// The frame of the text of the input: that of the input, moved by one
    /// column and one row where the input has a border.
    pub open spec fn spec_text_frame(&self) -> Frame {
        let offset: u16 = if self.border_style is Some {
            1
        } else {
            0
        };
        Frame {
            x: clamped_sum(self.frame.x, offset),
            y: clamped_sum(self.frame.y, offset),
            ..self.spec_frame()
        }
    }

    /// Whether the input can be drawn: whether its border can, if it has
    /// one.
    pub open spec fn drawable(&self) -> bool {
        self.border_style matches Some(style) ==> (Border {
            x: self.frame.x,
            y: self.frame.y,
            width: self.frame.width,
            height: 3,
            style,
        }).drawable()
    }

    /// The bytes that draw the input with the text `text`, of which the
    /// characters `range.0..range.1` are shown: the colour of the
    /// background; the colour of the text and the part of the text, or the
    /// colour of the placeholder and the placeholder where there is no
    /// text; and the border in its colour, if the input has one.
    pub open spec fn spec_bytes(&self, text: Seq<char>, range: (int, int)) -> Seq<u8> {
        bg_sequence(self.background_colour) + (if text.len() > 0 {
            fg_sequence(self.text_colour) + text_bytes(
                encoded(text.subrange(range.0, range.1)),
                self.spec_text_frame(),
                (HAlign::Left, VAlign::Center),
                HorizontalOverflowStyle::Clip,
                self.text_style,
            )
        } else {
            fg_sequence(self.placeholder_colour) + text_bytes(
                match self.placeholder {
                    Some(placeholder) => placeholder.spec_bytes(),
                    None => Seq::empty(),
                },
                self.spec_text_frame(),
                (HAlign::Left, VAlign::Center),
                HorizontalOverflowStyle::Clip,
                self.text_style,
            )
        }) + (match self.border_style {
            Some(style) => fg_sequence(self.border_colour) + (Border {
                x: self.frame.x,
                y: self.frame.y,
                width: self.frame.width,
                height: 3,
                style,
            }).spec_bytes(),
            None => Seq::empty(),
        })
    }

    /// The bytes that draw the input with the text `text`, of which the
    /// characters `range.0..range.1` are shown.
    pub fn bytes(&self, text: &[char], range: (usize, usize)) -> (bytes: Vec<u8>)
        requires
            self.drawable(),
            range.0 <= range.1 <= text@.len(),
        ensures
            bytes@ == self.spec_bytes(text@, (range.0 as int, range.1 as int)),
    {
        let offset: u16 = if self.border_style.is_some() {
            1
        } else {
            0
        };
        let frame = Frame {
            x: self.frame.x.saturating_add(offset),
            y: self.frame.y.saturating_add(offset),
            width: self.frame.width,
            height: if self.border_style.is_some() {
                3
            } else {
                1
            },
        };
        let mut bytes = colour_bytes(48, self.background_colour);
        if text.len() > 0 {
            let colour = colour_bytes(38, self.text_colour);
            append_bytes(&mut bytes, colour.as_slice());
            let part = encode_chars(vstd::slice::slice_subrange(text, range.0, range.1));
            let drawn = draw_text(
                part.as_slice(),
                &frame,
                (HAlign::Left, VAlign::Center),
                HorizontalOverflowStyle::Clip,
                self.text_style,
            );
            append_bytes(&mut bytes, drawn.as_slice());
        } else {
            let colour = colour_bytes(38, self.placeholder_colour);
            append_bytes(&mut bytes, colour.as_slice());
            let nothing: [u8; 0] = [];
            let placeholder: &[u8] = match self.placeholder {
                Some(placeholder) => placeholder.as_bytes(),
                None => nothing.as_slice(),
            };
            let drawn = draw_text(
                placeholder,
                &frame,
                (HAlign::Left, VAlign::Center),
                HorizontalOverflowStyle::Clip,
                self.text_style,
            );
            append_bytes(&mut bytes, drawn.as_slice());
        }
        match self.border_style {
            Some(style) => {
                let colour = colour_bytes(38, self.border_colour);
                append_bytes(&mut bytes, colour.as_slice());
                let border = Border {
                    x: self.frame.x,
                    y: self.frame.y,
                    width: self.frame.width,
                    height: 3,
                    style,
                };
                let drawn = border.bytes();
                append_bytes(&mut bytes, drawn.as_slice());
            },
            None => {},
        }
        proof {
            assert(bytes@ =~= self.spec_bytes(text@, (range.0 as int, range.1 as int)));
        }
        bytes
    }

    /// Takes some keys into account, one after the other.
    pub fn handle_keys(&mut self, cache: &mut TextInputCache, keys: &[Key])
        ensures
            *final(final(self).buffer) == *final(old(self).buffer),
            *final(self) == (TextInput { buffer: final(self).buffer, ..*old(self) }),
            (final(self).buffer@, *final(cache)) == typed(
                old(self).buffer@,
                *old(cache),
                keys@,
                old(self).spec_max_renderable_graphemes(),
            ),
    {
        let mut idx: usize = 0;
        proof {
            assert(keys@.take(0) =~= Seq::<Key>::empty());
        }
        while idx < keys.len()
            invariant
                idx <= keys@.len(),
                *final(self.buffer) == *final(old(self).buffer),
                *self == (TextInput { buffer: self.buffer, ..*old(self) }),
                (self.buffer@, *cache) == typed(
                    old(self).buffer@,
                    *old(cache),
                    keys@.take(idx as int),
                    old(self).spec_max_renderable_graphemes(),
                ),
            decreases keys@.len() - idx,
        {
            proof {
                assert(keys@.take(idx + 1).drop_last() =~= keys@.take(idx as int));
            }
            self.handle_keypress(cache, keys[idx]);
            idx = idx + 1;
        }
        proof {
            assert(keys@.take(idx as int) =~= keys@);
        }
    }
}

impl<'a> TextInput<'a> {
    /// Where the cursor of the terminal goes while the input has the
    /// focus: to the cluster under the cursor of the input, counted from
    /// the start of the window, in the row of the text.
    pub open spec fn spec_cursor_target(&self, cache: TextInputCache) -> (u16, u16) {
        let behind: int = if cache.cursor_pos >= cache.render_offset {
            cache.cursor_pos - cache.render_offset
        } else {
            0
        };
        let offset: u16 = if self.border_style is Some {
            1
        } else {
            0
        };
        (
            clamped_sum(clamped_sum(self.frame.x, (behind % 0x10000) as u16), offset),
            clamped_sum(self.frame.y, offset),
        )
    }

    /// Where the cursor of the terminal goes while the input has the focus.
    pub fn cursor_target(&self, cache: &TextInputCache) -> (target: (u16, u16))
        ensures
            target == self.spec_cursor_target(*cache),
    {
        let behind = cache.cursor_pos.saturating_sub(cache.render_offset);
        let offset: u16 = if self.border_style.is_some() {
            1
        } else {
            0
        };
        (
            self.frame.x.saturating_add((behind % 0x10000) as u16).saturating_add(offset),
            self.frame.y.saturating_add(offset),
        )
    }

    /// Draws the input and says whether it has the focus, or reports that
    /// the output buffer cannot take the input and draws nothing of it.
    ///
    /// A click of the left mouse button gives the focus to the input under
    /// the mouse and takes it from any other. An input that has the focus
    /// takes the pressed keys into account, in their order, and tells the
    /// terminal where its cursor is to go. All of this happens whether or
    /// not the input can be drawn then.
    pub fn draw(&mut self, cache: &mut TextInputCache, terminal: &mut Terminal) -> (r: Result<
        TextInputOut,
        Error,
    >)
        requires
            old(terminal).wf(),
            old(self).drawable(),
        ensures
            final(terminal).wf(),
            *final(final(self).buffer) == *final(old(self).buffer),
            *final(self) == (TextInput { buffer: final(self).buffer, ..*old(self) }),
            final(cache).focused == (if holds(old(terminal).clicked_mouse_buttons@, 0) {
                old(self).spec_frame().spec_contains(old(terminal).mouse_pos)
            } else {
                old(cache).focused
            }),
            (final(self).buffer@, *final(cache)) == (if final(cache).focused {
                typed(
                    old(self).buffer@,
                    TextInputCache { focused: true, ..*old(cache) },
                    old(terminal).pressed_keys@,
                    old(self).spec_max_renderable_graphemes(),
                )
            } else {
                (old(self).buffer@, TextInputCache { focused: false, ..*old(cache) })
            }),
            (Terminal {
                target_cursor_location: if final(cache).focused {
                    Some(old(self).spec_cursor_target(*final(cache)))
                } else {
                    old(terminal).target_cursor_location
                },
                ..*old(terminal)
            }).wrote(
                *final(terminal),
                match r {
                    Ok(_) => Ok(()),
                    Err(e) => Err(e),
                },
                old(self).spec_bytes(
                    final(self).buffer@,
                    window(
                        grapheme_lengths(final(self).buffer@),
                        final(self).buffer@.len() as int,
                        final(cache).render_offset,
                        old(self).spec_max_renderable_graphemes(),
                    ),
                ),
            ),
            r matches Ok(out) ==> out.focused == final(cache).focused,
    {
        let shape = Frame {
            x: self.frame.x,
            y: self.frame.y,
            width: self.frame.width,
            height: if self.border_style.is_some() {
                3
            } else {
                1
            },
        };
        // On a mouse press, if the press was inside the text input, focus it
        // Otherwise, unfocus it
        if has_button(&terminal.clicked_mouse_buttons, 0) {
            cache.focused = shape.contains(terminal.mouse_pos);
        }
        if cache.focused {
            proof {
                lemma_typed_keeps_focus(
                    self.buffer@,
                    *cache,
                    terminal.pressed_keys@,
                    self.spec_max_renderable_graphemes(),
                );
            }
            self.handle_keys(cache, terminal.pressed_keys.as_slice());
            terminal.target_cursor_location = Some(self.cursor_target(cache));
        }
        let lengths = grapheme_lengths_of(self.buffer.as_slice());
        let range = window_of(
            lengths.as_slice(),
            self.buffer.len(),
            cache.render_offset,
            self.max_renderable_graphemes(),
        );
        let bytes = self.bytes(self.buffer.as_slice(), range);
        match terminal.try_write(bytes.as_slice()) {
            Ok(()) => Ok(TextInputOut { focused: cache.focused }),
            Err(e) => Err(e),
        }
    }
}

} // verus!
