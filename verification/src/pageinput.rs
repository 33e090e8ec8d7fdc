//! The page selector: which page the viewer wants, and the six-byte indicator that
//! shows it while digits are typed.

use crate::coding::{ascii_to_u8, hex_char, hex_value, u8_to_ascii};
use vstd::prelude::*;

verus! {

/// The page the viewer wants.
#[derive(Clone, Copy, Debug, PartialEq, Eq, Structural)]
pub struct PageKey {
    /// Magazine, 0 to 7, where 0 stands for magazine 8.
    pub magazine: u8,
    /// Page within the magazine, two hexadecimal digits.
    pub page: u8,
}

/// How far the entry of a page number has come.
#[derive(Clone, Copy, Debug, PartialEq, Eq, Structural)]
pub enum Entry {
    /// Nothing typed: the indicator shows the wanted page.
    Idle,
    /// The magazine digit, 1 to 8, is typed.
    MagazineEntered { magazine: u8 },
    /// The magazine digit and the first page digit are typed.
    PageHighEntered { magazine: u8, high: u8 },
    /// The viewer froze the page with the hold button.
    ManualHold,
}

/// The selector as a mathematical value.
pub struct Selector {
    pub key: PageKey,
    pub entry: Entry,
}

/// Marker in front of the indicator while digits are awaited, and behind it when
/// the page is settled.
pub const GREEN: u8 = 0x02;

/// Marker behind the indicator while digits are awaited or the page is held.
pub const WHITE: u8 = 0x07;

/// Marker in front of the indicator while the page is held.
pub const RED: u8 = 0x01;

/// The digit that shows a magazine: 1 to 7 as they are, and 8 for magazine 0.
pub open spec fn magazine_digit(magazine: u8) -> u8 {
    if magazine == 0 {
        8
    } else {
        magazine
    }
}

impl Selector {
    /// The magazine is below 8 and the digits typed so far are in range.
    pub open spec fn wf(self) -> bool {
        &&& self.key.magazine < 8
        &&& match self.entry {
            Entry::MagazineEntered { magazine } => 1 <= magazine <= 8,
            Entry::PageHighEntered { magazine, high } => 1 <= magazine <= 8 && high < 16,
            _ => true,
        }
    }

    /// The selector a session starts with: magazine 1, page 00, nothing typed.
    pub open spec fn initial() -> Selector {
        Selector { key: PageKey { magazine: 1, page: 0 }, entry: Entry::Idle }
    }

    /// Packets are held back while a page number is being typed or the viewer
    /// holds the page.
    pub open spec fn hold(self) -> bool {
        !(self.entry is Idle)
    }

    /// The six bytes of the indicator.
    pub open spec fn indicator(self) -> Seq<u8> {
        match self.entry {
            Entry::Idle => seq![
                0x20u8,
                0x50u8,
                hex_char(magazine_digit(self.key.magazine)),
                hex_char(self.key.page >> 4),
                hex_char(self.key.page & 0xf),
                GREEN,
            ],
            Entry::MagazineEntered { magazine } => seq![
                GREEN,
                0x50u8,
                hex_char(magazine),
                0x2eu8,
                0x2eu8,
                WHITE,
            ],
            Entry::PageHighEntered { magazine, high } => seq![
                GREEN,
                0x50u8,
                hex_char(magazine),
                hex_char(high),
                0x2eu8,
                WHITE,
            ],
            Entry::ManualHold => seq![RED, 0x48u8, 0x4fu8, 0x4cu8, 0x44u8, WHITE],
        }
    }

    /// Back to idle on the page that is wanted: an entry is dropped, a hold released.
    pub open spec fn cancelled(self) -> Selector {
        Selector { key: self.key, entry: Entry::Idle }
    }

    /// The selector after the digit `b`, 0 to 15, is pressed. A hold ends first.
    /// Then a magazine digit 1 to 8 starts an entry, a hexadecimal digit continues
    /// it, the second of them settles the new page, and any other digit is ignored.
    pub open spec fn digit(self, b: u8) -> Selector {
        match self.entry {
            Entry::Idle | Entry::ManualHold => if 1 <= b <= 8 {
                Selector { key: self.key, entry: Entry::MagazineEntered { magazine: b } }
            } else {
                self.cancelled()
            },
            Entry::MagazineEntered { magazine } => if b < 16 {
                Selector { key: self.key, entry: Entry::PageHighEntered { magazine, high: b } }
            } else {
                self
            },
            Entry::PageHighEntered { magazine, high } => if b < 16 {
                Selector {
                    key: PageKey { magazine: magazine & 0x7, page: (high << 4) | b },
                    entry: Entry::Idle,
                }
            } else {
                self
            },
        }
    }

    /// The selector after the hold button is pressed: a hold ends, and anything
    /// else, an entry under way included, gives way to a hold.
    pub open spec fn hold_toggled(self) -> Selector {
        if self.entry is ManualHold {
            self.cancelled()
        } else {
            Selector { key: self.key, entry: Entry::ManualHold }
        }
    }
}

/// The page selector.
#[derive(Clone, Copy, Debug)]
pub struct PageInput {
    /// Wanted magazine, 0 to 7.
    pub mag: u8,
    /// Wanted page.
    pub page: u8,
    /// Packets are held back.
    pub hold: bool,
    /// The hold is the viewer's own.
    pub manual_hold: bool,
    /// The indicator.
    pub input: [u8; 6],
    /// Place in the indicator of the next digit: 2, 3 or 4.
    pub input_pos: usize,
}

impl View for PageInput {
    type V = Selector;

    open spec fn view(&self) -> Selector {
        Selector { key: PageKey { magazine: self.mag, page: self.page }, entry: self.entry() }
    }
}

impl PageInput {
    /// How far the entry has come, as the cursor and the indicator record it.
    pub open spec fn entry(&self) -> Entry {
        if self.manual_hold {
            Entry::ManualHold
        } else if self.input_pos == 3 {
            Entry::MagazineEntered { magazine: hex_value(self.input[2]) }
        } else if self.input_pos == 4 {
            Entry::PageHighEntered {
                magazine: hex_value(self.input[2]),
                high: hex_value(self.input[3]),
            }
        } else {
            Entry::Idle
        }
    }

    /// The cursor stands on one of the three digits, and on the first while held.
    pub open spec fn cursor_wf(&self) -> bool {
        &&& 2 <= self.input_pos <= 4
        &&& self.manual_hold ==> self.input_pos == 2
    }

    /// The fields agree with each other: the indicator and the hold flag are those
    /// of the state the selector is in.
    pub open spec fn wf(&self) -> bool {
        &&& self@.wf()
        &&& self.cursor_wf()
        &&& self.hold == self@.hold()
        &&& self.input@ == self@.indicator()
    }

    /// Whether the indicator holds these six bytes.
    fn shows(&self, b0: u8, b1: u8, b2: u8, b3: u8, b4: u8, b5: u8) -> (same: bool)
        ensures
            same == (self.input@ == seq![b0, b1, b2, b3, b4, b5]),
    {
        let same = self.input[0] == b0 && self.input[1] == b1 && self.input[2] == b2
            && self.input[3] == b3 && self.input[4] == b4 && self.input[5] == b5;
        proof {
            let want = seq![b0, b1, b2, b3, b4, b5];
            if same {
                assert(self.input@ =~= want);
            } else {
                assert(want[0] == b0 && want[1] == b1 && want[2] == b2 && want[3] == b3 && want[4]
                    == b4 && want[5] == b5);
            }
        }
        same
    }

    /// Whether the fields agree with each other, as every operation expects and
    /// leaves them.
    pub fn is_valid(&self) -> (ok: bool)
        ensures
            ok == self.wf(),
    {
        if self.mag >= 8 || self.input_pos < 2 || self.input_pos > 4 {
            return false;
        }
        if self.manual_hold {
            self.input_pos == 2 && self.hold && self.shows(RED, 0x48, 0x4f, 0x4c, 0x44, WHITE)
        } else if self.input_pos == 3 {
            let m = ascii_to_u8(self.input[2]);
            1 <= m && m <= 8 && self.hold && self.shows(
                GREEN,
                0x50,
                u8_to_ascii(m),
                0x2e,
                0x2e,
                WHITE,
            )
        } else if self.input_pos == 4 {
            let m = ascii_to_u8(self.input[2]);
            let h = ascii_to_u8(self.input[3]);
            1 <= m && m <= 8 && self.hold && self.shows(
                GREEN,
                0x50,
                u8_to_ascii(m),
                u8_to_ascii(h),
                0x2e,
                WHITE,
            )
        } else {
            !self.hold && self.shows(
                0x20,
                0x50,
                u8_to_ascii(if self.mag == 0 { 8 } else { self.mag }),
                u8_to_ascii(self.page >> 4),
                u8_to_ascii(self.page & 0xf),
                GREEN,
            )
        }
    }

    /// Drops an entry or a hold and shows the wanted page again.
    pub fn cancel(&mut self)
        requires
            old(self).wf(),
        ensures
            final(self).wf(),
            final(self)@ == old(self)@.cancelled(),
    {
        self.input[0] = 0x20;
        self.input[1] = 0x50;
        self.input[2] = u8_to_ascii(if self.mag == 0 { 8 } else { self.mag });
        self.input[3] = u8_to_ascii(self.page >> 4);
        self.input[4] = u8_to_ascii(self.page & 0xf);
        self.input[5] = GREEN;
        self.input_pos = 2;
        self.hold = false;
        self.manual_hold = false;
        assert(self.input@ =~= self@.indicator());
    }

    /// Takes the digit `b`, 0 to 15, from the keypad.
    pub fn input(&mut self, b: u8)
        requires
            old(self).wf(),
        ensures
            final(self).wf(),
            final(self)@ == old(self)@.digit(b),
    {
        if self.manual_hold {
            self.cancel();
        }
        if self.input_pos == 2 {
            if 1 <= b && b <= 8 {
                self.input[0] = GREEN;
                self.input[1] = 0x50;
                self.input[2] = u8_to_ascii(b);
                self.input[3] = 0x2e;
                self.input[4] = 0x2e;
                self.input[5] = WHITE;
                self.input_pos = 3;
                self.hold = true;
                assert(self.input@ =~= self@.indicator());
            }
        } else if b <= 0xf {
            let ghost m = hex_value(self.input[2]);
            let ghost h = hex_value(self.input[3]);
            self.input[self.input_pos] = u8_to_ascii(b);
            self.input_pos += 1;
            if self.input_pos == 5 {
                self.input[0] = 0x20;
                self.input[5] = GREEN;
                self.input_pos = 2;
                self.mag = ascii_to_u8(self.input[2]) & 0x7;
                self.page = (ascii_to_u8(self.input[3]) << 4) | ascii_to_u8(self.input[4]);
                self.hold = false;
                assert(m & 0x7 < 8 && magazine_digit(m & 0x7) == m) by (bit_vector)
                    requires
                        1 <= m <= 8,
                ;
                assert((((h << 4) | b) >> 4) == h && (((h << 4) | b) & 0xf) == b) by (bit_vector)
                    requires
                        h < 16,
                        b < 16,
                ;
                assert(self.input@ =~= self@.indicator());
            } else {
                assert(self.input@ =~= self@.indicator());
            }
        }
    }

    /// Takes the hold button.
    pub fn toggle_hold(&mut self)
        requires
            old(self).wf(),
        ensures
            final(self).wf(),
            final(self)@ == old(self)@.hold_toggled(),
    {
        if self.manual_hold {
            self.cancel();
        } else {
            self.manual_hold = true;
            self.hold = true;
            self.input_pos = 2;
            self.input[0] = RED;
            self.input[1] = 0x48;
            self.input[2] = 0x4f;
            self.input[3] = 0x4c;
            self.input[4] = 0x44;
            self.input[5] = WHITE;
            assert(self.input@ =~= self@.indicator());
        }
    }
}

impl Default for PageInput {
    /// Magazine 1, page 00, nothing typed.
    fn default() -> (p: PageInput)
        ensures
            p.wf(),
            p@ == Selector::initial(),
    {
        let p = PageInput {
            mag: 1,
            page: 0,
            hold: false,
            manual_hold: false,
            input: [0x20, 0x50, 0x31, 0x30, 0x30, GREEN],
            input_pos: 2,
        };
        assert(0u8 >> 4 == 0 && 0u8 & 0xf == 0) by (bit_vector);
        assert(p.input@ =~= p@.indicator());
        p
    }
}

/// Every button leaves a well-formed selector well-formed.
pub proof fn lemma_selector_wf(s: Selector, b: u8)
    requires
        s.wf(),
    ensures
        s.digit(b).wf(),
        s.hold_toggled().wf(),
        s.cancelled().wf(),
{
    match s.entry {
        Entry::PageHighEntered { magazine, high } => {
            assert(magazine & 0x7 < 8) by (bit_vector);
        },
        _ => {},
    }
}

/// A magazine digit 1 to 8 and two hexadecimal digits, typed while nothing is
/// typed yet, settle the page: the magazine is the digit's low three bits, so that
/// 8 gives 0 and every other digit itself, the page is made of the two digits, and
/// the selector is idle again and holds nothing back.
pub proof fn lemma_entry_settles(s: Selector, magazine: u8, high: u8, low: u8)
    requires
        s.wf(),
        s.entry is Idle || s.entry is ManualHold,
        1 <= magazine <= 8,
        high < 16,
        low < 16,
    ensures
        s.digit(magazine).digit(high).digit(low) == (Selector {
            key: PageKey { magazine: magazine & 0x7, page: (high << 4) | low },
            entry: Entry::Idle,
        }),
        !s.digit(magazine).digit(high).digit(low).hold(),
        s.digit(magazine).hold() && s.digit(magazine).digit(high).hold(),
        magazine & 0x7 == (if magazine == 8 { 0u8 } else { magazine }),
        ((high << 4) | low) == high * 16 + low,
{
    assert(magazine & 0x7 == (if magazine == 8 { 0u8 } else { magazine })) by (bit_vector)
        requires
            1 <= magazine <= 8,
    ;
    assert(((high << 4) | low) == high * 16 + low) by (bit_vector)
        requires
            high < 16,
            low < 16,
    ;
}

/// A digit that the selector does not expect changes nothing: while nothing is
/// typed anything but 1 to 8, and during an entry anything above 15.
pub proof fn lemma_digit_ignored(s: Selector, b: u8)
    requires
        s.wf(),
    ensures
        s.entry is Idle && !(1 <= b <= 8) ==> s.digit(b) == s,
        (s.entry is MagazineEntered || s.entry is PageHighEntered) && b >= 16 ==> s.digit(b) == s,
{
}

/// A digit pressed during a hold ends the hold first and then counts as a digit
/// pressed while nothing is typed: hold and entry never go together.
pub proof fn lemma_digit_ends_hold(s: Selector, b: u8)
    requires
        s.wf(),
        s.entry is ManualHold,
    ensures
        s.digit(b) == s.cancelled().digit(b),
        !(s.digit(b).entry is ManualHold),
        s.digit(b).key == s.key,
        s.digit(b).hold() <==> 1 <= b <= 8,
{
}

/// The hold button pressed twice ends where cancelling ends: idle on the page that
/// was wanted before, holding nothing back. Pressed once outside a hold it starts
/// one, whatever was typed.
pub proof fn lemma_hold_twice(s: Selector)
    requires
        s.wf(),
        !(s.entry is ManualHold),
    ensures
        s.hold_toggled().entry is ManualHold,
        s.hold_toggled().hold(),
        s.hold_toggled().key == s.key,
        s.hold_toggled().hold_toggled() == s.cancelled(),
        !s.hold_toggled().hold_toggled().hold(),
{
}

} // verus!
