//! The styles in which text can be drawn, and sets of them.

use vstd::prelude::*;

verus! {

/// One way of styling text. Each style has a bit of its own.
#[derive(Clone, Copy, PartialEq, Eq, Hash, Debug)]
pub enum TextStyle {
    Bold,
    Dim,
    Italic,
    Underline,
    Blinking,
    Inverse,
    Hidden,
    Strikethrough,
}

impl TextStyle {
    /// The bit that stands for the style in a [`TextStyleFlags`].
    pub open spec fn spec_bit(self) -> u8 {
        match self {
            TextStyle::Bold => 0b0000_0001,
            TextStyle::Dim => 0b0000_0010,
            TextStyle::Italic => 0b0000_0100,
            TextStyle::Underline => 0b0000_1000,
            TextStyle::Blinking => 0b0001_0000,
            TextStyle::Inverse => 0b0010_0000,
            TextStyle::Hidden => 0b0100_0000,
            TextStyle::Strikethrough => 0b1000_0000,
        }
    }

    /// The bit that stands for the style in a [`TextStyleFlags`].
    pub fn bit(self) -> (bit: u8)
        ensures
            bit == self.spec_bit(),
    {
        match self {
            TextStyle::Bold => 0b0000_0001,
            TextStyle::Dim => 0b0000_0010,
            TextStyle::Italic => 0b0000_0100,
            TextStyle::Underline => 0b0000_1000,
            TextStyle::Blinking => 0b0001_0000,
            TextStyle::Inverse => 0b0010_0000,
            TextStyle::Hidden => 0b0100_0000,
            TextStyle::Strikethrough => 0b1000_0000,
        }
    }
}

/// A set of [`TextStyle`]s.
#[derive(Clone, Copy, PartialEq, Eq, Hash, Debug)]
pub struct TextStyleFlags(pub u8);

impl TextStyleFlags {
    /// Whether the set holds `flag`.
    pub open spec fn spec_contains(self, flag: TextStyle) -> bool {
        self.0 & flag.spec_bit() != 0
    }

    pub fn contains(&self, flag: TextStyle) -> (held: bool)
        ensures
            held == self.spec_contains(flag),
    {
        (self.0 & flag.bit()) != 0
    }

    pub fn add_flag(&mut self, flag: TextStyle)
        ensures
            final(self).0 == old(self).0 | flag.spec_bit(),
    {
        self.0 = self.0 | flag.bit();
    }

    pub fn remove_flag(&mut self, flag: TextStyle)
        ensures
            final(self).0 == old(self).0 & !flag.spec_bit(),
    {
        self.0 = self.0 & !flag.bit();
    }

    pub fn merge(&mut self, other: Self)
        ensures
            final(self).0 == old(self).0 | other.0,
    {
        self.0 = self.0 | other.0;
    }
}

impl core::ops::BitOr<TextStyle> for TextStyle {
    type Output = TextStyleFlags;

    fn bitor(self, rhs: TextStyle) -> (flags: TextStyleFlags)
        ensures
            flags.0 == self.spec_bit() | rhs.spec_bit(),
    {
        TextStyleFlags(self.bit() | rhs.bit())
    }
}

impl vstd::std_specs::ops::BitOrSpecImpl<TextStyle> for TextStyle {
    open spec fn obeys_bitor_spec() -> bool {
        true
    }

    open spec fn bitor_req(self, rhs: TextStyle) -> bool {
        true
    }

    open spec fn bitor_spec(self, rhs: TextStyle) -> TextStyleFlags {
        TextStyleFlags(self.spec_bit() | rhs.spec_bit())
    }
}

impl vstd::std_specs::ops::BitAndSpecImpl<TextStyle> for TextStyleFlags {
    open spec fn obeys_bitand_spec() -> bool {
        true
    }

    open spec fn bitand_req(self, rhs: TextStyle) -> bool {
        true
    }

    open spec fn bitand_spec(self, rhs: TextStyle) -> bool {
        self.spec_contains(rhs)
    }
}

impl core::ops::BitAnd<TextStyle> for TextStyleFlags {
    type Output = bool;

    fn bitand(self, rhs: TextStyle) -> (held: bool)
        ensures
            held == self.spec_contains(rhs),
    {
        self.contains(rhs)
    }
}

impl core::ops::BitOrAssign<TextStyle> for TextStyleFlags {
    fn bitor_assign(&mut self, rhs: TextStyle)
        ensures
            final(self).0 == old(self).0 | rhs.spec_bit(),
    {
        self.add_flag(rhs);
    }
}

impl core::ops::BitXorAssign<TextStyle> for TextStyleFlags {
    fn bitxor_assign(&mut self, rhs: TextStyle)
        ensures
            final(self).0 == old(self).0 & !rhs.spec_bit(),
    {
        self.remove_flag(rhs);
    }
}

impl Default for TextStyleFlags {
    fn default() -> (flags: Self)
        ensures
            flags.0 == 0,
    {
        Self(0)
    }
}

impl TextStyleFlags {
    /// The set that holds `flag` and nothing else.
    pub fn from_flag(flag: TextStyle) -> (flags: Self)
        ensures
            flags.0 == flag.spec_bit(),
    {
        Self(flag.bit())
    }

    /// Whether the set is empty.
    pub fn is_empty(&self) -> (empty: bool)
        ensures
            empty == (self.0 == 0),
    {
        self.0 == 0
    }
}

/// A set holds a style once it was added, holds it no longer once it was
/// removed, and neither changes what the set says of another style.
pub proof fn lemma_flags(bits: u8, flag: TextStyle, other: TextStyle)
    ensures
        TextStyleFlags(bits | flag.spec_bit()).spec_contains(flag),
        !TextStyleFlags(bits & !flag.spec_bit()).spec_contains(flag),
        !TextStyleFlags(0).spec_contains(flag),
        TextStyleFlags(flag.spec_bit()).spec_contains(other) <==> other == flag,
        other != flag ==> (TextStyleFlags(bits | flag.spec_bit()).spec_contains(other)
            <==> TextStyleFlags(bits).spec_contains(other)),
        other != flag ==> (TextStyleFlags(bits & !flag.spec_bit()).spec_contains(other)
            <==> TextStyleFlags(bits).spec_contains(other)),
{
    let f = flag.spec_bit();
    let o = other.spec_bit();
    assert(f == 1 || f == 2 || f == 4 || f == 8 || f == 16 || f == 32 || f == 64 || f == 128);
    assert(o == 1 || o == 2 || o == 4 || o == 8 || o == 16 || o == 32 || o == 64 || o == 128);
    assert((f == 1 || f == 2 || f == 4 || f == 8 || f == 16 || f == 32 || f == 64 || f == 128)
        ==> ((bits | f) & f != 0 && (bits & !f) & f == 0 && 0u8 & f == 0)) by (bit_vector);
    assert((f == 1 || f == 2 || f == 4 || f == 8 || f == 16 || f == 32 || f == 64 || f == 128)
        && (o == 1 || o == 2 || o == 4 || o == 8 || o == 16 || o == 32 || o == 64 || o == 128)
        ==> ((f & o != 0) == (f == o)) && (f != o ==> ((bits | f) & o) == (bits & o) && ((bits & !f)
        & o) == (bits & o))) by (bit_vector);
}

} // verus!
