//! A colored glyph and the escape sequences that draw it.

use vstd::prelude::*;
use vstd::string::StringExecFns;
use crate::ansi::{push_char, termion_background, termion_foreground};
use crate::color::Color;

verus! {

/// One cell of a terminal: a glyph with its foreground and background.
#[derive(Clone, Copy, Debug, PartialEq, Eq, Structural)]
pub struct Tile {
    pub foreground: Color,
    pub background: Color,
    pub text: char,
}

/// A blank tile, white on black.
pub open spec fn default_tile() -> Tile {
    Tile { foreground: Color::White, background: Color::Black, text: ' ' }
}

/// A blank tile of the given background.
pub open spec fn background_tile(background: Color) -> Tile {
    Tile { foreground: Color::White, background, text: ' ' }
}

/// `ESC [48;2;r;g;b m`: sets the background.
pub open spec fn background_code(c: Color) -> Seq<char> {
    seq!['\x1b', '[', '4', '8', ';', '2', ';'] + c.ansi() + seq!['m']
}

/// `ESC [38;2;r;g;b m`: sets the foreground.
pub open spec fn foreground_code(c: Color) -> Seq<char> {
    seq!['\x1b', '[', '3', '8', ';', '2', ';'] + c.ansi() + seq!['m']
}

/// Both colors in one sequence, then the glyph.
pub open spec fn combined_code(t: Tile) -> Seq<char> {
    seq!['\x1b', '[', '4', '8', ';', '2', ';'] + t.background.ansi() + seq![
        ';',
        '3',
        '8',
        ';',
        '2',
        ';',
    ] + t.foreground.ansi() + seq!['m', t.text]
}

/// The background, the foreground, then the glyph, each color on its own.
pub open spec fn separate_code(t: Tile) -> Seq<char> {
    background_code(t.background) + foreground_code(t.foreground) + seq![t.text]
}

/// The glyph, preceded by a color change only for the colors that differ from
/// those of `previous`: foreground first, then background.
pub open spec fn diff_code(t: Tile, previous: Tile) -> Seq<char> {
    (if t.foreground != previous.foreground {
        foreground_code(t.foreground)
    } else {
        Seq::empty()
    }) + (if t.background != previous.background {
        background_code(t.background)
    } else {
        Seq::empty()
    }) + seq![t.text]
}

impl Default for Tile {
    fn default() -> (t: Self)
        ensures
            t == default_tile(),
    {
        Tile { foreground: Color::White, background: Color::Black, text: ' ' }
    }
}

impl Tile {
    pub fn new_background(background: Color) -> (t: Self)
        ensures
            t == background_tile(background),
    {
        Tile { background, foreground: Color::White, text: ' ' }
    }

    pub fn new_character(text: char, background: Color, foreground: Color) -> (t: Self)
        ensures
            t == (Tile { foreground, background, text }),
    {
        Tile { background, foreground, text }
    }

    /// The tile drawn with the terminal crate's own color sequences.
    pub fn to_printable_string(&self) -> (s: String)
        ensures
            s@ == separate_code(*self),
    {
        let bg = self.background.to_rgb();
        let fg = self.foreground.to_rgb();
        let mut s = termion_background(bg.r, bg.g, bg.b);
        let f = termion_foreground(fg.r, fg.g, fg.b);
        s.append(f.as_str());
        push_char(&mut s, self.text);
        assert(s@ =~= separate_code(*self));
        s
    }

    fn push_background(&self, buffer: &mut String)
        ensures
            final(buffer)@ == old(buffer)@ + background_code(self.background),
    {
        proof {
            reveal_strlit("\x1b[48;2;");
        }
        buffer.append("\x1b[48;2;");
        buffer.append(self.background.to_ansi());
        push_char(buffer, 'm');
        assert(final(buffer)@ =~= old(buffer)@ + background_code(self.background));
    }

    fn push_foreground(&self, buffer: &mut String)
        ensures
            final(buffer)@ == old(buffer)@ + foreground_code(self.foreground),
    {
        proof {
            reveal_strlit("\x1b[38;2;");
        }
        buffer.append("\x1b[38;2;");
        buffer.append(self.foreground.to_ansi());
        push_char(buffer, 'm');
        assert(final(buffer)@ =~= old(buffer)@ + foreground_code(self.foreground));
    }

    /// Sets both colors of this tile, without drawing its glyph.
    pub fn apply_colors_of_tile_to_buffer(&self, buffer: &mut String)
        ensures
            final(buffer)@ == old(buffer)@ + background_code(self.background) + foreground_code(
                self.foreground,
            ),
    {
        self.push_background(buffer);
        self.push_foreground(buffer);
    }

    pub fn fill_buffer_with_printable_string(&self, buffer: &mut String)
        ensures
            final(buffer)@ == old(buffer)@ + combined_code(*self),
    {
        proof {
            reveal_strlit("\x1b[48;2;");
            reveal_strlit(";38;2;");
        }
        buffer.append("\x1b[48;2;");
        buffer.append(self.background.to_ansi());
        buffer.append(";38;2;");
        buffer.append(self.foreground.to_ansi());
        push_char(buffer, 'm');
        push_char(buffer, self.text);
        assert(final(buffer)@ =~= old(buffer)@ + combined_code(*self));
    }

    pub fn fill_buffer_with_printable_string_with_respect_to_previous_tile(
        &self,
        buffer: &mut String,
        previous_tile: &Tile,
    )
        ensures
            final(buffer)@ == old(buffer)@ + diff_code(*self, *previous_tile),
    {
        if self.foreground != previous_tile.foreground {
            self.push_foreground(buffer);
        }
        if self.background != previous_tile.background {
            self.push_background(buffer);
        }
        push_char(buffer, self.text);
        assert(final(buffer)@ =~= old(buffer)@ + diff_code(*self, *previous_tile));
    }
}

} // verus!
