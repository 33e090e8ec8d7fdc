//! Commands for the display surface. The render engine computes them; whoever owns
//! the terminal carries them out, in order.

use vstd::prelude::*;

verus! {

/// A terminal colour: the terminal's own default, or a 24-bit value.
#[derive(Clone, Copy, Debug, PartialEq, Eq, Structural)]
pub enum Color {
    Reset,
    Rgb { r: u8, g: u8, b: u8 },
}

/// A character attribute switch.
#[derive(Clone, Copy, Debug, PartialEq, Eq, Structural)]
pub enum Attribute {
    Hidden,
    NoHidden,
    SlowBlink,
    NoBlink,
}

/// One command for the terminal.
#[derive(Clone, Copy, Debug, PartialEq, Eq, Structural)]
pub enum TermOp {
    /// Switch the terminal to raw input mode.
    EnableRawMode,
    /// Leave raw input mode.
    DisableRawMode,
    EnterAlternateScreen,
    LeaveAlternateScreen,
    DisableLineWrap,
    EnableLineWrap,
    HideCursor,
    ShowCursor,
    /// Set the window title to the program's name.
    SetTitle,
    /// Clear the whole screen with the current background.
    ClearScreen,
    /// Clear the line the cursor is on.
    ClearLine,
    /// Move the cursor to a column and a line, both counted from 0.
    MoveTo { col: u16, row: u16 },
    SetForeground(Color),
    SetBackground(Color),
    SetAttribute(Attribute),
    /// Print one glyph at the cursor.
    Print(char),
    /// Print that many blanks at the cursor.
    Spaces(u16),
    /// Send everything queued so far to the terminal.
    Flush,
}

/// The terminal colour of a teletext colour index: bit 0 is red, bit 1 green,
/// bit 2 blue, each at full intensity; an index above 7 is white.
pub open spec fn term_color_spec(color: u8) -> Color {
    if color > 7 {
        Color::Rgb { r: 255, g: 255, b: 255 }
    } else {
        Color::Rgb {
            r: if color & 1 != 0 { 255u8 } else { 0u8 },
            g: if color & 2 != 0 { 255u8 } else { 0u8 },
            b: if color & 4 != 0 { 255u8 } else { 0u8 },
        }
    }
}

/// The background of an empty cell: the terminal's own where `mix` is on, black otherwise.
pub open spec fn default_bg_spec(mix: bool) -> Color {
    if mix {
        Color::Reset
    } else {
        term_color_spec(0)
    }
}

#[verifier::when_used_as_spec(term_color_spec)]
pub fn term_color(color: u8) -> (c: Color)
    ensures
        c == term_color_spec(color),
{
    assert(0u8 & 1 == 0 && 0u8 & 2 == 0 && 0u8 & 4 == 0 && 1u8 & 1 != 0 && 1u8 & 2 == 0 && 1u8 & 4
        == 0 && 2u8 & 1 == 0 && 2u8 & 2 != 0 && 2u8 & 4 == 0 && 3u8 & 1 != 0 && 3u8 & 2 != 0 && 3u8
        & 4 == 0 && 4u8 & 1 == 0 && 4u8 & 2 == 0 && 4u8 & 4 != 0 && 5u8 & 1 != 0 && 5u8 & 2 == 0
        && 5u8 & 4 != 0 && 6u8 & 1 == 0 && 6u8 & 2 != 0 && 6u8 & 4 != 0 && 7u8 & 1 != 0 && 7u8 & 2
        != 0 && 7u8 & 4 != 0) by (bit_vector);
    match color {
        0 => Color::Rgb { r: 0, g: 0, b: 0 },
        1 => Color::Rgb { r: 255, g: 0, b: 0 },
        2 => Color::Rgb { r: 0, g: 255, b: 0 },
        3 => Color::Rgb { r: 255, g: 255, b: 0 },
        4 => Color::Rgb { r: 0, g: 0, b: 255 },
        5 => Color::Rgb { r: 255, g: 0, b: 255 },
        6 => Color::Rgb { r: 0, g: 255, b: 255 },
        _ => Color::Rgb { r: 255, g: 255, b: 255 },
    }
}

#[verifier::when_used_as_spec(default_bg_spec)]
pub fn default_bg(mix: bool) -> (c: Color)
    ensures
        c == default_bg_spec(mix),
{
    if mix {
        Color::Reset
    } else {
        term_color(0)
    }
}

} // verus!
