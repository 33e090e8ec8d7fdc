//! The session decoder: which packets belong to the wanted page, and what they and
//! the buttons do to the grid.

use crate::chargen::{
    blank_row, centered_margins, lemma_blanked, lemma_insert_twice, lemma_inserted, overwrite,
    setup_ops, CharGen,
    CharGenError, Drawn, Screen, MIN_COLUMNS, MIN_LINES, ROWS, VISIBLE_ROWS,
};
use crate::coding::{
    control_bits, control_bits_spec, hamming16, hamming16_decode, mrag, mrag_spec, Address,
    ERASE_PAGE,
};
use crate::keymap::Button;
use crate::pageinput::{lemma_selector_wf, PageInput, Selector, GREEN, WHITE};
use crate::term::TermOp;
use crate::transport::PACKET_LEN;
use vstd::prelude::*;
use vstd::slice::slice_subrange;

verus! {

/// Grid column of the indicator's first byte.
pub const INDICATOR_COLUMN: u8 = 2;

/// Grid column of the marker that shows a page was found: the indicator's last byte.
pub const MARKER_COLUMN: u8 = 7;

/// Grid column from which a header is shown while no page is found.
pub const HEADER_COLUMN: u8 = 8;

/// Grid column from which a header is shown once a page is found: its clock.
pub const CLOCK_COLUMN: u8 = 31;

/// The session as a mathematical value.
pub struct Session {
    /// The header seen last carried the wanted page.
    pub matched: bool,
    /// A header of the wanted page was seen since the viewer last chose.
    pub locked: bool,
    pub selector: Selector,
    pub screen: Screen,
}

/// The magazine and row of a packet.
pub open spec fn packet_address(packet: Seq<u8>) -> Address {
    mrag_spec(packet.subrange(0, 2))
}

/// The page number that a header packet carries.
pub open spec fn header_page(packet: Seq<u8>) -> u8 {
    hamming16(packet.subrange(2, 4))
}

/// A header packet asks for the page to be erased.
pub open spec fn erase_page(packet: Seq<u8>) -> bool {
    control_bits_spec(packet.subrange(4, 12)) & ERASE_PAGE != 0
}

impl Session {
    /// The selector and the engine are well-formed.
    pub open spec fn wf(self) -> bool {
        self.selector.wf() && self.screen.wf()
    }

    /// The session takes the packet: nothing holds packets back, and the packet is
    /// of the wanted magazine.
    pub open spec fn accepts(self, packet: Seq<u8>) -> bool {
        !self.selector.hold() && packet_address(packet).magazine == self.selector.key.magazine
    }

    /// A header packet carries the wanted page.
    pub open spec fn matches(self, packet: Seq<u8>) -> bool {
        header_page(packet) == self.selector.key.page
    }

    /// What an accepted header does to the engine. On a match the marker is set and,
    /// if the header asks for it, the body emptied; only then is the header's text
    /// written: all of it while no page was found before, its clock alone otherwise.
    pub open spec fn header_drawn(self, packet: Seq<u8>) -> Drawn {
        let found = if self.matches(packet) {
            let marked = Drawn::start(self.screen).insert(0, MARKER_COLUMN as int, seq![WHITE]);
            if erase_page(packet) {
                marked.clear_page()
            } else {
                marked
            }
        } else {
            Drawn::start(self.screen)
        };
        if self.locked {
            found.insert(0, CLOCK_COLUMN as int, packet.subrange(33, 42))
        } else {
            found.insert(0, HEADER_COLUMN as int, packet.subrange(10, 42))
        }
    }

    /// The session after an accepted header.
    pub open spec fn after_header(self, packet: Seq<u8>) -> Session {
        Session {
            matched: self.matches(packet),
            locked: self.locked || self.matches(packet),
            selector: self.selector,
            screen: self.header_drawn(packet).screen,
        }
    }

    /// What an accepted body row does to the engine: written into its row once a
    /// page is found, dropped before.
    pub open spec fn body_drawn(self, packet: Seq<u8>) -> Drawn {
        if self.locked {
            Drawn::start(self.screen).insert(
                packet_address(packet).row as int,
                0,
                packet.subrange(2, 42),
            )
        } else {
            Drawn::start(self.screen)
        }
    }

    /// The session after a packet of 42 bytes. A packet that is not accepted, and
    /// one for a row above 24, changes nothing.
    pub open spec fn after_packet(self, packet: Seq<u8>) -> Session {
        let row = packet_address(packet).row;
        if !self.accepts(packet) {
            self
        } else if row == 0 {
            self.after_header(packet)
        } else if row < VISIBLE_ROWS {
            Session { screen: self.body_drawn(packet).screen, ..self }
        } else {
            self
        }
    }

    /// The commands that a packet gives rise to.
    pub open spec fn packet_ops(self, packet: Seq<u8>) -> Seq<TermOp> {
        let row = packet_address(packet).row;
        if !self.accepts(packet) {
            Seq::empty()
        } else if row == 0 {
            self.header_drawn(packet).ops
        } else if row < VISIBLE_ROWS {
            self.body_drawn(packet).ops
        } else {
            Seq::empty()
        }
    }

    /// What a button does to the engine, given the selector after the button.
    pub open spec fn button_drawn(self, button: Button) -> Drawn {
        let next = self.selector_after(button);
        let start = Drawn::start(self.screen);
        match button {
            Button::Digit(_) => start.insert(0, INDICATOR_COLUMN as int, next.indicator()),
            Button::Hold => {
                let shown = start.insert(0, INDICATOR_COLUMN as int, next.indicator());
                if next.hold() {
                    shown
                } else {
                    shown.insert(0, MARKER_COLUMN as int, seq![GREEN])
                }
            },
            Button::Reveal => start.redrawn(
                self.screen.mix,
                !self.screen.reveal,
                self.screen.margins,
            ),
            Button::Mix => start.redrawn(!self.screen.mix, self.screen.reveal, self.screen.margins),
            _ => start,
        }
    }

    /// The selector after a button.
    pub open spec fn selector_after(self, button: Button) -> Selector {
        match button {
            Button::Digit(b) => self.selector.digit(b),
            Button::Hold => self.selector.hold_toggled(),
            _ => self.selector,
        }
    }

    /// The session after a button. A digit, and the hold button when it ends a
    /// hold, make the session look for the page afresh.
    pub open spec fn after_button(self, button: Button) -> Session {
        let next = self.selector_after(button);
        Session {
            matched: self.matched,
            locked: match button {
                Button::Digit(_) => false,
                Button::Hold => self.locked && next.hold(),
                _ => self.locked,
            },
            selector: next,
            screen: self.button_drawn(button).screen,
        }
    }

    /// The session and the commands right after setup on a terminal of that size.
    pub open spec fn started(cols: u16, lines: u16) -> Drawn {
        (Drawn { screen: Screen::initial(), ops: setup_ops() }).insert(
            0,
            INDICATOR_COLUMN as int,
            Selector::initial().indicator(),
        ).redrawn(false, false, centered_margins(cols, lines))
    }
}

/// The session decoder with its page selector and its render engine.
pub struct Decoder {
    pub header_matched: bool,
    pub header_locked: bool,
    pub pageinput: PageInput,
    pub chargen: CharGen,
}

impl View for Decoder {
    type V = Session;

    open spec fn view(&self) -> Session {
        Session {
            matched: self.header_matched,
            locked: self.header_locked,
            selector: self.pageinput@,
            screen: self.chargen@,
        }
    }
}

impl Decoder {
    /// The selector and the engine are well-formed.
    pub open spec fn wf(&self) -> bool {
        self.pageinput.wf() && self.chargen.wf()
    }

    /// Whether the selector and the engine are as every operation expects and
    /// leaves them.
    pub fn is_valid(&self) -> (ok: bool)
        ensures
            ok == self.wf(),
    {
        self.pageinput.is_valid() && self.chargen.is_valid()
    }

    /// Sets a session up on a terminal of `cols` columns and `lines` lines: the
    /// engine takes the terminal over, shows the indicator and centres the page.
    /// Fails, with no command to carry out, where the terminal is too small.
    pub fn new(cols: u16, lines: u16) -> (r: Result<(Decoder, Vec<TermOp>), CharGenError>)
        ensures
            cols < MIN_COLUMNS || lines < MIN_LINES <==> r is Err,
            r matches Err(e) ==> e == CharGenError::TerminalTooSmall,
            r matches Ok((decoder, ops)) ==> {
                &&& decoder.wf()
                &&& !decoder@.matched
                &&& !decoder@.locked
                &&& decoder@.selector == Selector::initial()
                &&& decoder@.screen == Session::started(cols, lines).screen
                &&& ops@ == Session::started(cols, lines).ops
            },
    {
        match CharGen::new(cols, lines) {
            Err(e) => Err(e),
            Ok((chargen, ops)) => {
                let mut ops = ops;
                let mut decoder = Decoder {
                    header_matched: false,
                    header_locked: false,
                    pageinput: PageInput::default(),
                    chargen,
                };
                let mut shown = decoder.chargen.insert_data(
                    0,
                    INDICATOR_COLUMN,
                    decoder.pageinput.input.as_slice(),
                );
                ops.append(&mut shown);
                let mut drawn = decoder.chargen.auto_margins(cols, lines);
                ops.append(&mut drawn);
                Ok((decoder, ops))
            },
        }
    }

    /// Takes an accepted header packet.
    fn process_header(&mut self, packet: &[u8; 42]) -> (ops: Vec<TermOp>)
        requires
            old(self).wf(),
        ensures
            final(self).wf(),
            final(self)@ == old(self)@.after_header(packet@),
            ops@ == old(self)@.header_drawn(packet@).ops,
    {
        let number: [u8; 2] = [packet[2], packet[3]];
        assert(number@ =~= packet@.subrange(2, 4));
        let matched = hamming16_decode(&number) == self.pageinput.page;
        let was_locked = self.header_locked;
        self.header_matched = matched;
        let mut ops: Vec<TermOp> = Vec::new();
        if matched {
            self.header_locked = true;
            let marker: [u8; 1] = [WHITE];
            assert(marker@ =~= seq![WHITE]);
            let mut marked = self.chargen.insert_data(0, MARKER_COLUMN, marker.as_slice());
            ops.append(&mut marked);
            let flags: [u8; 8] = [
                packet[4],
                packet[5],
                packet[6],
                packet[7],
                packet[8],
                packet[9],
                packet[10],
                packet[11],
            ];
            assert(flags@ =~= packet@.subrange(4, 12));
            if control_bits(&flags) & ERASE_PAGE != 0 {
                let mut cleared = self.chargen.clear_page();
                ops.append(&mut cleared);
            }
        }
        let mut text = if was_locked {
            self.chargen.insert_data(0, CLOCK_COLUMN, slice_subrange(packet.as_slice(), 33, 42))
        } else {
            self.chargen.insert_data(0, HEADER_COLUMN, slice_subrange(packet.as_slice(), 10, 42))
        };
        ops.append(&mut text);
        ops
    }

    /// Takes one packet from the transport. A packet of another magazine, a packet
    /// that arrives while packets are held back, and a packet for a row that the
    /// page does not show are dropped.
    pub fn process_packet(&mut self, packet: [u8; 42]) -> (ops: Vec<TermOp>)
        requires
            old(self).wf(),
        ensures
            final(self).wf(),
            final(self)@ == old(self)@.after_packet(packet@),
            ops@ == old(self)@.packet_ops(packet@),
    {
        let head: [u8; 2] = [packet[0], packet[1]];
        assert(head@ =~= packet@.subrange(0, 2));
        let address = mrag(&head);
        if self.pageinput.hold || address.magazine != self.pageinput.mag {
            return Vec::new();
        }
        if address.row == 0 {
            self.process_header(&packet)
        } else if address.row < VISIBLE_ROWS {
            if self.header_locked {
                self.chargen.insert_data(address.row, 0, slice_subrange(packet.as_slice(), 2, 42))
            } else {
                Vec::new()
            }
        } else {
            Vec::new()
        }
    }

    /// Takes one button from the viewer.
    pub fn process_button(&mut self, button: Button) -> (ops: Vec<TermOp>)
        requires
            old(self).wf(),
        ensures
            final(self).wf(),
            final(self)@ == old(self)@.after_button(button),
            ops@ == old(self)@.button_drawn(button).ops,
    {
        match button {
            Button::Digit(x) => {
                self.pageinput.input(x);
                self.header_locked = false;
                self.chargen.insert_data(0, INDICATOR_COLUMN, self.pageinput.input.as_slice())
            },
            Button::Hold => {
                self.pageinput.toggle_hold();
                let mut ops = self.chargen.insert_data(
                    0,
                    INDICATOR_COLUMN,
                    self.pageinput.input.as_slice(),
                );
                if !self.pageinput.hold {
                    self.header_locked = false;
                    let marker: [u8; 1] = [GREEN];
                    assert(marker@ =~= seq![GREEN]);
                    let mut marked = self.chargen.insert_data(0, MARKER_COLUMN, marker.as_slice());
                    ops.append(&mut marked);
                }
                ops
            },
            Button::Reveal => self.chargen.toggle_reveal(),
            Button::Mix => self.chargen.mix(),
            Button::Fastext(_) | Button::PageNext | Button::PagePrev | Button::TimedPage => Vec::new(),
        }
    }
}

/// Packets and buttons leave a well-formed session well-formed.
pub proof fn lemma_session_wf(s: Session, packet: Seq<u8>, button: Button)
    requires
        s.wf(),
        packet.len() == PACKET_LEN,
    ensures
        s.after_packet(packet).wf(),
        s.after_button(button).wf(),
{
    let marked = s.screen.inserted(0, MARKER_COLUMN as int, seq![WHITE]);
    lemma_inserted(s.screen, 0, MARKER_COLUMN as int, seq![WHITE]);
    lemma_blanked(marked);
    let cleared = marked.blanked(1, VISIBLE_ROWS as int);
    lemma_inserted(s.screen, 0, CLOCK_COLUMN as int, packet.subrange(33, 42));
    lemma_inserted(s.screen, 0, HEADER_COLUMN as int, packet.subrange(10, 42));
    lemma_inserted(marked, 0, CLOCK_COLUMN as int, packet.subrange(33, 42));
    lemma_inserted(marked, 0, HEADER_COLUMN as int, packet.subrange(10, 42));
    lemma_inserted(cleared, 0, CLOCK_COLUMN as int, packet.subrange(33, 42));
    lemma_inserted(cleared, 0, HEADER_COLUMN as int, packet.subrange(10, 42));
    lemma_inserted(s.screen, packet_address(packet).row as int, 0, packet.subrange(2, 42));
    let next = s.selector_after(button);
    match button {
        Button::Digit(b) => {
            lemma_selector_wf(s.selector, b);
        },
        _ => {
            lemma_selector_wf(s.selector, 0);
        },
    }
    let shown = s.screen.inserted(0, INDICATOR_COLUMN as int, next.indicator());
    lemma_inserted(s.screen, 0, INDICATOR_COLUMN as int, next.indicator());
    lemma_inserted(shown, 0, MARKER_COLUMN as int, seq![GREEN]);
}

/// The lock is set by a header of the wanted page and by nothing else, and no
/// button sets it.
pub proof fn lemma_lock_needs_match(s: Session, packet: Seq<u8>, button: Button)
    ensures
        !s.locked && s.after_packet(packet).locked ==> s.after_packet(packet).matched
            && packet_address(packet).row == 0 && s.accepts(packet) && s.matches(packet),
        s.after_button(button).locked ==> s.locked,
        s.locked ==> s.after_packet(packet).locked,
{
}

/// An accepted header tells whether it carries the wanted page, and one that does
/// locks the session.
pub proof fn lemma_header_matches(s: Session, packet: Seq<u8>)
    requires
        s.accepts(packet),
        packet_address(packet).row == 0,
    ensures
        s.after_packet(packet).matched == s.matches(packet),
        s.matches(packet) ==> s.after_packet(packet).locked,
        !s.matches(packet) ==> s.after_packet(packet).locked == s.locked,
        s.after_packet(packet).selector == s.selector,
{
}

/// An accepted body row, 1 to 24, is in the grid afterwards if the session is
/// locked, with every other row as before; if the session is not locked, the
/// packet changes nothing and draws nothing.
pub proof fn lemma_body_row(s: Session, packet: Seq<u8>)
    requires
        s.wf(),
        packet.len() == PACKET_LEN,
        s.accepts(packet),
        1 <= packet_address(packet).row < VISIBLE_ROWS,
    ensures
        s.locked ==> s.after_packet(packet).screen.grid[packet_address(packet).row as int]
            == packet.subrange(2, 42),
        s.locked ==> forall|r: int|
            0 <= r < ROWS && r != packet_address(packet).row ==> #[trigger] s.after_packet(
                packet,
            ).screen.grid[r] == s.screen.grid[r],
        !s.locked ==> s.after_packet(packet) == s && s.packet_ops(packet) == Seq::<TermOp>::empty(),
        s.after_packet(packet).matched == s.matched,
        s.after_packet(packet).locked == s.locked,
{
    let row = packet_address(packet).row as int;
    let data = packet.subrange(2, 42);
    lemma_inserted(s.screen, row, 0, data);
    assert(overwrite(s.screen.grid[row], 0, data) =~= data);
}

/// A header of the wanted page that asks for it empties the body before its own
/// text is written: the text goes into an engine whose rows 1 to 24 are empty
/// already, after the commands that clear them, and they are empty afterwards.
pub proof fn lemma_erase_before_text(s: Session, packet: Seq<u8>)
    requires
        s.wf(),
        packet.len() == PACKET_LEN,
        s.accepts(packet),
        packet_address(packet).row == 0,
        s.matches(packet),
        erase_page(packet),
    ensures
        ({
            let marked = s.screen.inserted(0, MARKER_COLUMN as int, seq![WHITE]);
            let cleared = marked.blanked(1, VISIBLE_ROWS as int);
            let col = if s.locked { CLOCK_COLUMN as int } else { HEADER_COLUMN as int };
            let text = if s.locked { packet.subrange(33, 42) } else { packet.subrange(10, 42) };
            &&& forall|r: int| 1 <= r < VISIBLE_ROWS ==> #[trigger] cleared.grid[r] == blank_row()
            &&& s.after_packet(packet).screen == cleared.inserted(0, col, text)
            &&& s.packet_ops(packet) == s.screen.insert_ops(0, MARKER_COLUMN as int, seq![WHITE])
                + marked.clear_page_ops() + cleared.insert_ops(0, col, text)
            &&& forall|r: int|
                1 <= r < VISIBLE_ROWS ==> #[trigger] s.after_packet(packet).screen.grid[r]
                    == blank_row()
        }),
{
    let marked = s.screen.inserted(0, MARKER_COLUMN as int, seq![WHITE]);
    let cleared = marked.blanked(1, VISIBLE_ROWS as int);
    let col = if s.locked { CLOCK_COLUMN as int } else { HEADER_COLUMN as int };
    let text = if s.locked { packet.subrange(33, 42) } else { packet.subrange(10, 42) };
    lemma_inserted(s.screen, 0, MARKER_COLUMN as int, seq![WHITE]);
    lemma_blanked(marked);
    lemma_inserted(cleared, 0, col, text);
    assert(s.packet_ops(packet) =~= s.screen.insert_ops(0, MARKER_COLUMN as int, seq![WHITE])
        + marked.clear_page_ops() + cleared.insert_ops(0, col, text));
}

/// While packets are held back, by an entry under way or by the viewer, a packet
/// changes nothing and draws nothing. So does a packet of another magazine.
pub proof fn lemma_held_packets_dropped(s: Session, packet: Seq<u8>)
    requires
        s.selector.hold() || packet_address(packet).magazine != s.selector.key.magazine,
    ensures
        s.after_packet(packet) == s,
        s.packet_ops(packet) == Seq::<TermOp>::empty(),
{
}

/// The hold button, pressed outside a hold, starts one: the indicator in the grid
/// reads HOLD between its markers, and from then on every packet is dropped.
/// Pressed again it ends the hold: the selector is idle on the page wanted before,
/// and the session looks for that page afresh.
pub proof fn lemma_hold_button(s: Session, packet: Seq<u8>)
    requires
        s.wf(),
        !(s.selector.entry is ManualHold),
    ensures
        ({
            let held = s.after_button(Button::Hold);
            let released = held.after_button(Button::Hold);
            &&& held.wf()
            &&& held.selector.entry is ManualHold
            &&& held.selector.key == s.selector.key
            &&& held.selector.indicator() == seq![0x01u8, 0x48u8, 0x4fu8, 0x4cu8, 0x44u8, 0x07u8]
            &&& held.screen.grid[0].subrange(2, 8) == held.selector.indicator()
            &&& held.locked == s.locked
            &&& held.after_packet(packet) == held
            &&& held.packet_ops(packet) == Seq::<TermOp>::empty()
            &&& released.selector == s.selector.cancelled()
            &&& !released.selector.hold()
            &&& !released.locked
        }),
{
    let held = s.after_button(Button::Hold);
    let text = held.selector.indicator();
    lemma_session_wf(s, Seq::new(PACKET_LEN as nat, |i: int| 0u8), Button::Hold);
    lemma_inserted(s.screen, 0, INDICATOR_COLUMN as int, text);
    assert(overwrite(s.screen.grid[0], 2, text).subrange(2, 8) =~= text);
}

/// A packet sent again changes nothing more: the session after it twice is the
/// session after it once. Unless it is a header that empties the body, which
/// clears the body's lines each time, it also draws nothing the second time.
pub proof fn lemma_resent_packet(s: Session, packet: Seq<u8>)
    requires
        s.wf(),
        packet.len() == PACKET_LEN,
    ensures
        s.after_packet(packet).after_packet(packet) == s.after_packet(packet),
        !(s.accepts(packet) && packet_address(packet).row == 0 && s.matches(packet) && erase_page(
            packet,
        )) ==> s.after_packet(packet).packet_ops(packet) == Seq::<TermOp>::empty(),
{
    let row = packet_address(packet).row;
    let t = s.after_packet(packet);
    if !s.accepts(packet) || row >= VISIBLE_ROWS {
    } else if row != 0 {
        lemma_insert_twice(s.screen, row as int, 0, packet.subrange(2, 42));
    } else {
        let marker = seq![WHITE];
        let wide = packet.subrange(10, 42);
        let clock = packet.subrange(33, 42);
        let col = if s.locked { CLOCK_COLUMN as int } else { HEADER_COLUMN as int };
        let text = if s.locked { clock } else { wide };
        if !s.matches(packet) {
            lemma_insert_twice(s.screen, 0, col, text);
        } else {
            let marked = s.screen.inserted(0, MARKER_COLUMN as int, marker);
            lemma_inserted(s.screen, 0, MARKER_COLUMN as int, marker);
            let cleared = if erase_page(packet) {
                marked.blanked(1, VISIBLE_ROWS as int)
            } else {
                marked
            };
            lemma_blanked(marked);
            lemma_inserted(cleared, 0, col, text);
            assert(t.screen == cleared.inserted(0, col, text));
            assert(t.locked && t.matched && t.selector == s.selector);
            // The marker and the clock are in the header row already.
            let header = t.screen.grid[0];
            assert(marked.grid[0] == overwrite(s.screen.grid[0], MARKER_COLUMN as int, marker));
            assert(cleared.grid[0] == marked.grid[0]);
            assert(header == overwrite(cleared.grid[0], col, text));
            assert(header.subrange(MARKER_COLUMN as int, MARKER_COLUMN + 1) =~= marker);
            assert(header.subrange(CLOCK_COLUMN as int, CLOCK_COLUMN + 9) =~= clock);
            assert(!t.screen.differs(0, MARKER_COLUMN as int, marker));
            assert(!t.screen.differs(0, CLOCK_COLUMN as int, clock));
            if erase_page(packet) {
                assert(t.screen.blanked(1, VISIBLE_ROWS as int).grid =~= t.screen.grid) by {
                    assert forall|r: int| 0 <= r < ROWS implies #[trigger] t.screen.blanked(
                        1,
                        VISIBLE_ROWS as int,
                    ).grid[r] == t.screen.grid[r] by {
                        if r != 0 {
                            assert(t.screen.grid[r] == cleared.grid[r]);
                        }
                    }
                }
            } else {
                assert(t.packet_ops(packet) =~= Seq::<TermOp>::empty());
            }
        }
    }
}

} // verus!
