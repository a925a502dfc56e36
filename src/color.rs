//! The palette.

use vstd::prelude::*;
use crate::ansi::{decimal, rgb_params};

verus! {

/// A symbolic color; `Gray` marks an empty cell of the playfield.
#[derive(Clone, Copy, Debug, PartialEq, Eq, Structural)]
pub enum Color {
    Red,
    Yellow,
    Green,
    LightBlue,
    DarkBlue,
    Orange,
    Purple,
    White,
    Black,
    Gray,
}

/// A 24-bit color.
#[derive(Clone, Copy, Debug, PartialEq, Eq, Structural)]
pub struct Rgb {
    pub r: u8,
    pub g: u8,
    pub b: u8,
}

impl Color {
    /// The fixed red, green and blue components of each color.
    pub open spec fn spec_rgb(self) -> Rgb {
        match self {
            Color::Red => Rgb { r: 255, g: 0, b: 0 },
            Color::Yellow => Rgb { r: 255, g: 247, b: 5 },
            Color::Green => Rgb { r: 0, g: 255, b: 0 },
            Color::LightBlue => Rgb { r: 0, g: 170, b: 255 },
            Color::DarkBlue => Rgb { r: 15, g: 32, b: 189 },
            Color::Orange => Rgb { r: 245, g: 167, b: 66 },
            Color::Purple => Rgb { r: 125, g: 15, b: 189 },
            Color::White => Rgb { r: 255, g: 255, b: 255 },
            Color::Black => Rgb { r: 0, g: 0, b: 0 },
            Color::Gray => Rgb { r: 100, g: 100, b: 100 },
        }
    }

    /// The `r;g;b` parameters of an escape sequence for this color.
    pub open spec fn ansi(self) -> Seq<char> {
        let c = self.spec_rgb();
        rgb_params(c.r, c.g, c.b)
    }

    pub fn to_rgb(&self) -> (c: Rgb)
        ensures
            c == self.spec_rgb(),
    {
        match self {
            Color::Red => Rgb { r: 255, g: 0, b: 0 },
            Color::Yellow => Rgb { r: 255, g: 247, b: 5 },
            Color::Green => Rgb { r: 0, g: 255, b: 0 },
            Color::LightBlue => Rgb { r: 0, g: 170, b: 255 },
            Color::DarkBlue => Rgb { r: 15, g: 32, b: 189 },
            Color::Orange => Rgb { r: 245, g: 167, b: 66 },
            Color::Purple => Rgb { r: 125, g: 15, b: 189 },
            Color::White => Rgb { r: 255, g: 255, b: 255 },
            Color::Black => Rgb { r: 0, g: 0, b: 0 },
            Color::Gray => Rgb { r: 100, g: 100, b: 100 },
        }
    }

    pub fn to_ansi(&self) -> (s: &'static str)
        ensures
            s@ == self.ansi(),
    {
        proof {
            reveal_with_fuel(decimal, 3);
        }
        match self {
            Color::Red => {
                proof { reveal_strlit("255;0;0"); }
                assert("255;0;0"@ =~= self.ansi());
                "255;0;0"
            },
            Color::Yellow => {
                proof { reveal_strlit("255;247;5"); }
                assert("255;247;5"@ =~= self.ansi());
                "255;247;5"
            },
            Color::Green => {
                proof { reveal_strlit("0;255;0"); }
                assert("0;255;0"@ =~= self.ansi());
                "0;255;0"
            },
            Color::LightBlue => {
                proof { reveal_strlit("0;170;255"); }
                assert("0;170;255"@ =~= self.ansi());
                "0;170;255"
            },
            Color::DarkBlue => {
                proof { reveal_strlit("15;32;189"); }
                assert("15;32;189"@ =~= self.ansi());
                "15;32;189"
            },
            Color::Orange => {
                proof { reveal_strlit("245;167;66"); }
                assert("245;167;66"@ =~= self.ansi());
                "245;167;66"
            },
            Color::Purple => {
                proof { reveal_strlit("125;15;189"); }
                assert("125;15;189"@ =~= self.ansi());
                "125;15;189"
            },
            Color::White => {
                proof { reveal_strlit("255;255;255"); }
                assert("255;255;255"@ =~= self.ansi());
                "255;255;255"
            },
            Color::Black => {
                proof { reveal_strlit("0;0;0"); }
                assert("0;0;0"@ =~= self.ansi());
                "0;0;0"
            },
            Color::Gray => {
                proof { reveal_strlit("100;100;100"); }
                assert("100;100;100"@ =~= self.ansi());
                "100;100;100"
            },
        }
    }
}

} // verus!
