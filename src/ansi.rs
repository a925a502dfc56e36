//! Decimal and escape-sequence text shared by the renderers, and the calls
//! into the terminal crates that produce such sequences.

use vstd::prelude::*;
use vstd::string::StringExecFns;

verus! {

/// The character of a decimal digit.
pub open spec fn digit_char(d: nat) -> char {
    seq!['0', '1', '2', '3', '4', '5', '6', '7', '8', '9'][d as int]
}

/// The decimal notation of `n`, most significant digit first, without
/// leading zeros.
pub open spec fn decimal(n: nat) -> Seq<char>
    decreases n,
{
    if n < 10 {
        seq![digit_char(n)]
    } else {
        decimal(n / 10).push(digit_char(n % 10))
    }
}

/// The parameters `r;g;b` of a 24-bit color escape sequence.
pub open spec fn rgb_params(r: u8, g: u8, b: u8) -> Seq<char> {
    decimal(r as nat) + seq![';'] + decimal(g as nat) + seq![';'] + decimal(b as nat)
}

/// The sequence that moves the cursor to the given one-based row and column.
pub open spec fn cursor_position_code(row: nat, column: nat) -> Seq<char> {
    seq!['\x1b', '['] + decimal(row) + seq![';'] + decimal(column) + seq!['H']
}

fn digit(d: u64) -> (c: char)
    requires
        d < 10,
    ensures
        c == digit_char(d as nat),
{
    match d {
        0 => '0',
        1 => '1',
        2 => '2',
        3 => '3',
        4 => '4',
        5 => '5',
        6 => '6',
        7 => '7',
        8 => '8',
        _ => '9',
    }
}

/// Relies on `String::push`: the character is appended at the end.
#[verifier::external_body]
pub(crate) fn push_char(buffer: &mut String, c: char)
    ensures
        final(buffer)@ == old(buffer)@.push(c),
{
    buffer.push(c);
}

/// Appends the decimal notation of `n`.
pub(crate) fn push_decimal(buffer: &mut String, n: u64)
    ensures
        final(buffer)@ == old(buffer)@ + decimal(n as nat),
    decreases n,
{
    if n >= 10 {
        push_decimal(buffer, n / 10);
    }
    push_char(buffer, digit(n % 10));
    assert(final(buffer)@ =~= old(buffer)@ + decimal(n as nat));
}

/// Relies on the `Display` of `crossterm::cursor::MoveTo(column, row)`: it
/// writes `ESC [ row+1 ; column+1 H`, adding one to each zero-based
/// coordinate (which must not overflow).
#[verifier::external_body]
pub(crate) fn crossterm_move_to(column: u16, row: u16) -> (s: String)
    requires
        column < u16::MAX,
        row < u16::MAX,
    ensures
        s@ == cursor_position_code(row as nat + 1, column as nat + 1),
{
    crossterm::cursor::MoveTo(column, row).to_string()
}

/// Relies on the `Display` of `termion::cursor::Goto(column, row)`: it writes
/// `ESC [ row ; column H` for one-based coordinates (it asserts in debug
/// builds that they are not both zero).
#[verifier::external_body]
pub(crate) fn termion_goto(column: u16, row: u16) -> (s: String)
    requires
        !(column == 0 && row == 0),
    ensures
        s@ == cursor_position_code(row as nat, column as nat),
{
    termion::cursor::Goto(column, row).to_string()
}

/// Relies on `termion::color::Rgb::bg_string`: `ESC [48;2;r;g;b m`.
#[verifier::external_body]
pub(crate) fn termion_background(r: u8, g: u8, b: u8) -> (s: String)
    ensures
        s@ == seq!['\x1b', '[', '4', '8', ';', '2', ';'] + rgb_params(r, g, b) + seq!['m'],
{
    termion::color::Rgb(r, g, b).bg_string()
}

/// Relies on `termion::color::Rgb::fg_string`: `ESC [38;2;r;g;b m`.
#[verifier::external_body]
pub(crate) fn termion_foreground(r: u8, g: u8, b: u8) -> (s: String)
    ensures
        s@ == seq!['\x1b', '[', '3', '8', ';', '2', ';'] + rgb_params(r, g, b) + seq!['m'],
{
    termion::color::Rgb(r, g, b).fg_string()
}

} // verus!
