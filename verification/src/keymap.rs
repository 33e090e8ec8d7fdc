//! The buttons of the remote control, and the keys that stand for them.

use vstd::prelude::*;

verus! {

/// A button of the remote control.
#[derive(Clone, Copy, Debug, PartialEq, Eq, Structural)]
pub enum Button {
    /// A digit key, 0 to 15.
    Digit(u8),
    /// A coloured shortcut key, 0 to 6.
    Fastext(u8),
    PageNext,
    PagePrev,
    Hold,
    Reveal,
    TimedPage,
    Mix,
}

/// The key of a key press, as far as the key map tells keys apart.
#[derive(Clone, Copy, Debug, PartialEq, Eq, Structural)]
pub enum KeyCode {
    Char(char),
    Up,
    Down,
    Left,
    Right,
    PageUp,
    PageDown,
    /// Any other key.
    Other,
}

/// A key press: the key and the modifier keys held with it, one bit each.
#[derive(Clone, Copy, Debug, PartialEq, Eq, Structural)]
pub struct KeyEvent {
    pub code: KeyCode,
    pub modifiers: u8,
}

/// Modifier bits of a key pressed alone.
pub const NO_MODIFIERS: u8 = 0;

/// Modifier bits of a key pressed with shift and nothing else.
pub const SHIFT: u8 = 1;

/// The value of a hexadecimal digit in lower case, for `0` to `9` and `a` to `f`.
pub open spec fn digit_value(c: char) -> u8 {
    if '0' <= c <= '9' {
        (c as u32 - '0' as u32) as u8
    } else {
        (c as u32 - 'a' as u32 + 10) as u8
    }
}

/// The button a key press stands for, if any. With shift alone, `0` to `6` are
/// the shortcut keys. Without modifiers, `0` to `9` and `a` to `f` are the
/// digits, `h` and the space bar hold, `r` reveals, `t` is the timed page, `m`
/// mixes, up, right and page up go to the next page, down, left and page down
/// to the one before. Every other key press stands for none.
pub open spec fn button_of(event: KeyEvent) -> Option<Button> {
    if event.modifiers == SHIFT {
        match event.code {
            KeyCode::Char(c) => if '0' <= c <= '6' {
                Some(Button::Fastext(digit_value(c)))
            } else {
                None
            },
            _ => None,
        }
    } else if event.modifiers == NO_MODIFIERS {
        match event.code {
            KeyCode::Char(c) => if '0' <= c <= '9' || 'a' <= c <= 'f' {
                Some(Button::Digit(digit_value(c)))
            } else if c == 'h' || c == ' ' {
                Some(Button::Hold)
            } else if c == 'r' {
                Some(Button::Reveal)
            } else if c == 't' {
                Some(Button::TimedPage)
            } else if c == 'm' {
                Some(Button::Mix)
            } else {
                None
            },
            KeyCode::Up | KeyCode::Right | KeyCode::PageUp => Some(Button::PageNext),
            KeyCode::Down | KeyCode::Left | KeyCode::PageDown => Some(Button::PagePrev),
            KeyCode::Other => None,
        }
    } else {
        None
    }
}

/// The value of the hexadecimal digit `c`.
fn hex_digit(c: char) -> (value: u8)
    requires
        '0' <= c <= '9' || 'a' <= c <= 'f',
    ensures
        value == digit_value(c),
        value < 16,
{
    if '0' <= c && c <= '9' {
        (c as u32 - '0' as u32) as u8
    } else {
        (c as u32 - 'a' as u32 + 10) as u8
    }
}

impl Button {
    /// Maps a key press to the button it stands for.
    pub fn from_event(key_event: KeyEvent) -> (button: Option<Button>)
        ensures
            button == button_of(key_event),
    {
        if key_event.modifiers == SHIFT {
            match key_event.code {
                KeyCode::Char(c) => if '0' <= c && c <= '6' {
                    Some(Button::Fastext(hex_digit(c)))
                } else {
                    None
                },
                _ => None,
            }
        } else if key_event.modifiers == NO_MODIFIERS {
            match key_event.code {
                KeyCode::Char(c) => if ('0' <= c && c <= '9') || ('a' <= c && c <= 'f') {
                    Some(Button::Digit(hex_digit(c)))
                } else if c == 'h' || c == ' ' {
                    Some(Button::Hold)
                } else if c == 'r' {
                    Some(Button::Reveal)
                } else if c == 't' {
                    Some(Button::TimedPage)
                } else if c == 'm' {
                    Some(Button::Mix)
                } else {
                    None
                },
                KeyCode::Up | KeyCode::Right | KeyCode::PageUp => Some(Button::PageNext),
                KeyCode::Down | KeyCode::Left | KeyCode::PageDown => Some(Button::PagePrev),
                KeyCode::Other => None,
            }
        } else {
            None
        }
    }
}

/// Every digit or shortcut button that the key map gives is in range.
pub proof fn lemma_buttons_in_range(event: KeyEvent)
    ensures
        button_of(event) matches Some(Button::Digit(d)) ==> d < 16,
        button_of(event) matches Some(Button::Fastext(f)) ==> f < 7,
{
}

} // verus!
