//! One step of the consumer loop: what an event from the transport or the keyboard
//! does to the session, and whether the loop goes on.

use crate::chargen::{centered_margins, Screen};
use crate::decoder::{Decoder, Session};
use crate::keymap::{button_of, Button, KeyCode, KeyEvent};
use crate::term::TermOp;
use vstd::prelude::*;

verus! {

/// An event of the merged stream.
#[derive(Clone, Copy, Debug, PartialEq, Eq)]
pub enum Event {
    /// A packet from the transport.
    Packet([u8; 42]),
    /// A key press.
    Key(KeyEvent),
    /// The terminal now has that many columns and lines.
    Resize { cols: u16, lines: u16 },
    /// Any other input event.
    OtherInput,
    /// The transport has no more packets.
    EndOfStream,
    /// The keyboard has no more events.
    EndOfInput,
}

/// Whether the consumer loop goes on.
#[derive(Clone, Copy, Debug, PartialEq, Eq, Structural)]
pub enum Flow {
    Continue,
    Stop,
}

/// The key that ends the session, whatever modifiers are held with it.
pub open spec fn is_quit(key: KeyEvent) -> bool {
    key.code == KeyCode::Char('q')
}

/// The loop ends on the end of either source and on the quit key, and on nothing else.
pub open spec fn flow_of(event: Event) -> Flow {
    match event {
        Event::EndOfStream | Event::EndOfInput => Flow::Stop,
        Event::Key(key) => if is_quit(key) {
            Flow::Stop
        } else {
            Flow::Continue
        },
        _ => Flow::Continue,
    }
}

impl Session {
    /// The session after an event: a packet and a button act as the decoder says,
    /// a resize centres the page again, and everything else leaves it alone.
    pub open spec fn after_event(self, event: Event) -> Session {
        match event {
            Event::Packet(packet) => self.after_packet(packet@),
            Event::Key(key) => match button_of(key) {
                Some(button) if !is_quit(key) => self.after_button(button),
                _ => self,
            },
            Event::Resize { cols, lines } => Session {
                screen: Screen { margins: centered_margins(cols, lines), ..self.screen },
                ..self
            },
            _ => self,
        }
    }

    /// The commands that an event gives rise to.
    pub open spec fn event_ops(self, event: Event) -> Seq<TermOp> {
        match event {
            Event::Packet(packet) => self.packet_ops(packet@),
            Event::Key(key) => match button_of(key) {
                Some(button) if !is_quit(key) => self.button_drawn(button).ops,
                _ => Seq::empty(),
            },
            Event::Resize { cols, lines } => self.after_event(event).screen.redraw_ops(),
            _ => Seq::empty(),
        }
    }
}

/// Takes one event of the merged stream and says whether the loop goes on.
pub fn dispatch(decoder: &mut Decoder, event: Event) -> (r: (Flow, Vec<TermOp>))
    requires
        old(decoder).wf(),
    ensures
        final(decoder).wf(),
        r.0 == flow_of(event),
        final(decoder)@ == old(decoder)@.after_event(event),
        r.1@ == old(decoder)@.event_ops(event),
{
    match event {
        Event::Packet(packet) => (Flow::Continue, decoder.process_packet(packet)),
        Event::Key(key) => {
            if key.code == KeyCode::Char('q') {
                (Flow::Stop, Vec::new())
            } else {
                match Button::from_event(key) {
                    Some(button) => (Flow::Continue, decoder.process_button(button)),
                    None => (Flow::Continue, Vec::new()),
                }
            }
        },
        Event::Resize { cols, lines } => (Flow::Continue, decoder.chargen.auto_margins(cols, lines)),
        Event::OtherInput => (Flow::Continue, Vec::new()),
        Event::EndOfStream | Event::EndOfInput => (Flow::Stop, Vec::new()),
    }
}

/// The end of the transport and the end of the keyboard each stop the loop,
/// whatever state the session is in, and leave the session as it is.
pub proof fn lemma_end_of_source_stops(s: Session, event: Event)
    requires
        event is EndOfStream || event is EndOfInput,
    ensures
        flow_of(event) is Stop,
        s.after_event(event) == s,
        s.event_ops(event) == Seq::<TermOp>::empty(),
{
}

/// The quit key stops the loop before the key map sees it: it is no button.
pub proof fn lemma_quit_stops(s: Session, key: KeyEvent)
    requires
        is_quit(key),
    ensures
        flow_of(Event::Key(key)) is Stop,
        s.after_event(Event::Key(key)) == s,
        s.event_ops(Event::Key(key)) == Seq::<TermOp>::empty(),
{
}

/// Packets, buttons and resizes never stop the loop.
pub proof fn lemma_loop_goes_on(event: Event)
    requires
        !(event is EndOfStream),
        !(event is EndOfInput),
        event matches Event::Key(key) ==> !is_quit(key),
    ensures
        flow_of(event) is Continue,
{
}

} // verus!
