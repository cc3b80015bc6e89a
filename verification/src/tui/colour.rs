//! Colours.

use vstd::prelude::*;

verus! {

#[derive(Clone, Copy, Debug, PartialEq, Eq)]
pub struct Colour {
    pub r: u8,
    pub g: u8,
    pub b: u8,
}

impl Colour {
    pub fn new(r: u8, g: u8, b: u8) -> (colour: Self)
        ensures
            colour == (Colour { r, g, b }),
    {
        Self { r, g, b }
    }

    pub fn black() -> (colour: Self)
        ensures
            colour == (Colour { r: 0, g: 0, b: 0 }),
    {
        Self::new(0, 0, 0)
    }

    pub fn white() -> (colour: Self)
        ensures
            colour == (Colour { r: 255, g: 255, b: 255 }),
    {
        Self::new(255, 255, 255)
    }

    pub fn red() -> (colour: Self)
        ensures
            colour == (Colour { r: 255, g: 0, b: 0 }),
    {
        Self::new(255, 0, 0)
    }

    pub fn green() -> (colour: Self)
        ensures
            colour == (Colour { r: 0, g: 255, b: 0 }),
    {
        Self::new(0, 255, 0)
    }

    pub fn blue() -> (colour: Self)
        ensures
            colour == (Colour { r: 0, g: 0, b: 255 }),
    {
        Self::new(0, 0, 255)
    }

    pub fn grey() -> (colour: Self)
        ensures
            colour == (Colour { r: 127, g: 127, b: 127 }),
    {
        Self::new(127, 127, 127)
    }
}

} // verus!
