use vstd::prelude::*;

verus! {

/// The sixteen colours of the palette, in the order of their indices.
#[derive(Copy, Clone, PartialEq, Eq, Structural, Debug)]
pub enum Color {
    Black,
    Navy,
    Green,
    Teal,
    Maroon,
    Purple,
    Olive,
    Silver,
    Gray,
    Blue,
    Lime,
    Aqua,
    Red,
    Fuchsia,
    Yellow,
    White,
}

/// Red, green and blue of one pixel.
#[derive(Copy, Clone, PartialEq, Eq, Structural, Debug)]
pub struct Rgb {
    pub r: u8,
    pub g: u8,
    pub b: u8,
}

impl Color {
    /// Index of the colour in the palette.
    pub open spec fn palette_index(self) -> u8 {
        match self {
            Color::Black => 0,
            Color::Navy => 1,
            Color::Green => 2,
            Color::Teal => 3,
            Color::Maroon => 4,
            Color::Purple => 5,
            Color::Olive => 6,
            Color::Silver => 7,
            Color::Gray => 8,
            Color::Blue => 9,
            Color::Lime => 10,
            Color::Aqua => 11,
            Color::Red => 12,
            Color::Fuchsia => 13,
            Color::Yellow => 14,
            Color::White => 15,
        }
    }

    pub fn index(self) -> (i: u8)
        ensures
            i == self.palette_index(),
            i < 16,
    {
        match self {
            Color::Black => 0,
            Color::Navy => 1,
            Color::Green => 2,
            Color::Teal => 3,
            Color::Maroon => 4,
            Color::Purple => 5,
            Color::Olive => 6,
            Color::Silver => 7,
            Color::Gray => 8,
            Color::Blue => 9,
            Color::Lime => 10,
            Color::Aqua => 11,
            Color::Red => 12,
            Color::Fuchsia => 13,
            Color::Yellow => 14,
            Color::White => 15,
        }
    }
}

/// Strength of one channel of a palette entry: the channel's bit of the index
/// gives two thirds, the intensity bit one third.
pub open spec fn channel(on: bool, bright: bool) -> u8 {
    if on && bright {
        0xFF
    } else if on {
        0xAA
    } else if bright {
        0x55
    } else {
        0x00
    }
}

/// The colour of a palette index below 16. Entry 6 is the one exception to
/// the rule of the bits: its green is halved, which makes it brown.
pub open spec fn palette(index: u8) -> Rgb {
    if index == 6 {
        Rgb { r: 0xAA, g: 0x55, b: 0x00 }
    } else {
        let bright = index as int / 8 % 2 == 1;
        Rgb {
            r: channel(index as int / 4 % 2 == 1, bright),
            g: channel(index as int / 2 % 2 == 1, bright),
            b: channel(index as int % 2 == 1, bright),
        }
    }
}

/// The colour of a palette index; an index of 16 or more counts modulo 16.
pub fn rgb_of(index: u8) -> (c: Rgb)
    ensures
        c == palette((index as int % 16) as u8),
{
    match index % 16 {
        0 => Rgb { r: 0x00, g: 0x00, b: 0x00 },
        1 => Rgb { r: 0x00, g: 0x00, b: 0xAA },
        2 => Rgb { r: 0x00, g: 0xAA, b: 0x00 },
        3 => Rgb { r: 0x00, g: 0xAA, b: 0xAA },
        4 => Rgb { r: 0xAA, g: 0x00, b: 0x00 },
        5 => Rgb { r: 0xAA, g: 0x00, b: 0xAA },
        6 => Rgb { r: 0xAA, g: 0x55, b: 0x00 },
        7 => Rgb { r: 0xAA, g: 0xAA, b: 0xAA },
        8 => Rgb { r: 0x55, g: 0x55, b: 0x55 },
        9 => Rgb { r: 0x55, g: 0x55, b: 0xFF },
        10 => Rgb { r: 0x55, g: 0xFF, b: 0x55 },
        11 => Rgb { r: 0x55, g: 0xFF, b: 0xFF },
        12 => Rgb { r: 0xFF, g: 0x55, b: 0x55 },
        13 => Rgb { r: 0xFF, g: 0x55, b: 0xFF },
        14 => Rgb { r: 0xFF, g: 0xFF, b: 0x55 },
        _ => Rgb { r: 0xFF, g: 0xFF, b: 0xFF },
    }
}

} // verus!
