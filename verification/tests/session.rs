use ttxi::chargen::Margins;
use ttxi::decoder::Decoder;
use ttxi::keymap::{KeyCode, KeyEvent, NO_MODIFIERS, SHIFT};
use ttxi::session::{dispatch, Event, Flow};

const CODEWORDS: [u8; 16] = [
    0x15, 0x02, 0x49, 0x5e, 0x64, 0x73, 0x38, 0x2f, 0xd0, 0xc7, 0x8c, 0x9b, 0xa1, 0xb6, 0xfd, 0xea,
];

fn decoder() -> Decoder {
    let (decoder, _) = Decoder::new(41, 25).unwrap();
    decoder
}

fn key(c: char) -> Event {
    Event::Key(KeyEvent { code: KeyCode::Char(c), modifiers: NO_MODIFIERS })
}

fn matching_header() -> [u8; 42] {
    let mut packet = [b' '; 42];
    packet[0] = CODEWORDS[1];
    for i in 1..10 {
        packet[i] = CODEWORDS[0];
    }
    packet
}

#[test]
fn end_of_stream_stops_the_loop() {
    let mut decoder = decoder();
    let (flow, ops) = dispatch(&mut decoder, Event::EndOfStream);
    assert_eq!(flow, Flow::Stop);
    assert!(ops.is_empty());
}

#[test]
fn end_of_input_stops_the_loop_while_packets_still_come() {
    let mut decoder = decoder();
    let (flow, _) = dispatch(&mut decoder, Event::Packet(matching_header()));
    assert_eq!(flow, Flow::Continue);
    let (flow, ops) = dispatch(&mut decoder, Event::EndOfInput);
    assert_eq!(flow, Flow::Stop);
    assert!(ops.is_empty());
    assert!(decoder.header_locked);
}

#[test]
fn quit_key_stops_the_loop_with_any_modifier() {
    let mut decoder = decoder();
    assert_eq!(dispatch(&mut decoder, key('q')).0, Flow::Stop);
    let shifted = Event::Key(KeyEvent { code: KeyCode::Char('q'), modifiers: SHIFT });
    assert_eq!(dispatch(&mut decoder, shifted).0, Flow::Stop);
    let control = Event::Key(KeyEvent { code: KeyCode::Char('q'), modifiers: 2 });
    let (flow, ops) = dispatch(&mut decoder, control);
    assert_eq!(flow, Flow::Stop);
    assert!(ops.is_empty());
}

#[test]
fn packets_go_to_the_decoder() {
    let mut decoder = decoder();
    let (flow, ops) = dispatch(&mut decoder, Event::Packet(matching_header()));
    assert_eq!(flow, Flow::Continue);
    assert!(!ops.is_empty());
    assert!(decoder.header_matched);
    assert!(decoder.header_locked);
}

#[test]
fn keys_go_through_the_key_map() {
    let mut decoder = decoder();
    let (flow, ops) = dispatch(&mut decoder, key('h'));
    assert_eq!(flow, Flow::Continue);
    assert!(!ops.is_empty());
    assert!(decoder.pageinput.hold);
    dispatch(&mut decoder, key(' '));
    assert!(!decoder.pageinput.hold);
    dispatch(&mut decoder, key('3'));
    dispatch(&mut decoder, key('2'));
    dispatch(&mut decoder, key('a'));
    assert_eq!(decoder.pageinput.mag, 3);
    assert_eq!(decoder.pageinput.page, 0x2a);
    dispatch(&mut decoder, key('m'));
    assert!(decoder.chargen.mix_on());
    dispatch(&mut decoder, key('r'));
    assert!(decoder.chargen.reveal_on());
}

#[test]
fn unmapped_keys_and_other_input_do_nothing() {
    let mut decoder = decoder();
    let (flow, ops) = dispatch(&mut decoder, key('z'));
    assert_eq!(flow, Flow::Continue);
    assert!(ops.is_empty());
    let (flow, ops) = dispatch(&mut decoder, Event::OtherInput);
    assert_eq!(flow, Flow::Continue);
    assert!(ops.is_empty());
    let (flow, ops) = dispatch(
        &mut decoder,
        Event::Key(KeyEvent { code: KeyCode::Other, modifiers: NO_MODIFIERS }),
    );
    assert_eq!(flow, Flow::Continue);
    assert!(ops.is_empty());
    assert!(!decoder.pageinput.hold);
}

#[test]
fn resize_centres_the_page_again() {
    let mut decoder = decoder();
    let (flow, ops) = dispatch(&mut decoder, Event::Resize { cols: 81, lines: 40 });
    assert_eq!(flow, Flow::Continue);
    assert_eq!(decoder.chargen.margins(), Margins { top: 7, left: 20 });
    assert_eq!(ops, decoder.chargen.redraw());
    dispatch(&mut decoder, Event::Resize { cols: 20, lines: 10 });
    assert_eq!(decoder.chargen.margins(), Margins { top: 0, left: 0 });
}
