use ttxi::pageinput::PageInput;

#[test]
fn default_selector_shows_page_100() {
    let p = PageInput::default();
    assert_eq!(p.mag, 1);
    assert_eq!(p.page, 0);
    assert!(!p.hold);
    assert!(!p.manual_hold);
    assert_eq!(p.input_pos, 2);
    assert_eq!(&p.input, b" P100\x02");
}

#[test]
fn digits_3_2_a_commit_page_32a() {
    let mut p = PageInput::default();
    p.input(3);
    assert!(p.hold);
    assert_eq!(&p.input, b"\x02P3..\x07");
    p.input(2);
    assert!(p.hold);
    assert_eq!(&p.input, b"\x02P32.\x07");
    p.input(0xa);
    assert_eq!(p.mag, 3);
    assert_eq!(p.page, 0x2a);
    assert!(!p.hold);
    assert_eq!(p.input_pos, 2);
    assert_eq!(&p.input, b" P32A\x02");
}

#[test]
fn every_magazine_digit_commits_its_low_three_bits() {
    for digit in 1..=8u8 {
        let mut p = PageInput::default();
        p.input(digit);
        p.input(0);
        p.input(0);
        assert_eq!(p.mag, digit & 0x7);
        assert_eq!(p.page, 0);
        assert!(!p.hold);
    }
}

#[test]
fn magazine_8_is_kept_as_0_and_shown_as_8() {
    let mut p = PageInput::default();
    p.input(8);
    p.input(0xf);
    p.input(0xe);
    assert_eq!(p.mag, 0);
    assert_eq!(p.page, 0xfe);
    assert_eq!(&p.input, b" P8FE\x02");
    p.toggle_hold();
    p.toggle_hold();
    assert_eq!(p.mag, 0);
    assert_eq!(&p.input, b" P8FE\x02");
}

#[test]
fn digits_out_of_range_are_ignored() {
    let mut p = PageInput::default();
    p.input(0);
    assert_eq!(&p.input, b" P100\x02");
    assert!(!p.hold);
    p.input(9);
    assert_eq!(&p.input, b" P100\x02");
    p.input(0xf);
    assert_eq!(&p.input, b" P100\x02");
    assert_eq!(p.input_pos, 2);
    p.input(2);
    p.input(16);
    assert_eq!(&p.input, b"\x02P2..\x07");
    assert_eq!(p.input_pos, 3);
    p.input(5);
    p.input(200);
    assert_eq!(&p.input, b"\x02P25.\x07");
    assert_eq!(p.input_pos, 4);
    assert_eq!(p.mag, 1);
    assert_eq!(p.page, 0);
}

#[test]
fn hold_toggles_on_and_off() {
    let mut p = PageInput::default();
    p.toggle_hold();
    assert!(p.hold);
    assert!(p.manual_hold);
    assert_eq!(&p.input, b"\x01HOLD\x07");
    p.toggle_hold();
    assert!(!p.hold);
    assert!(!p.manual_hold);
    assert_eq!(&p.input, b" P100\x02");
    assert_eq!(p.mag, 1);
    assert_eq!(p.page, 0);
}

#[test]
fn hold_cancels_an_entry_under_way() {
    let mut p = PageInput::default();
    p.input(4);
    p.input(5);
    p.toggle_hold();
    assert!(p.hold);
    assert_eq!(p.input_pos, 2);
    assert_eq!(&p.input, b"\x01HOLD\x07");
    p.toggle_hold();
    assert!(!p.hold);
    assert_eq!(&p.input, b" P100\x02");
}

#[test]
fn a_digit_ends_a_hold_and_starts_an_entry() {
    let mut p = PageInput::default();
    p.toggle_hold();
    p.input(2);
    assert!(!p.manual_hold);
    assert!(p.hold);
    assert_eq!(&p.input, b"\x02P2..\x07");
    p.input(3);
    p.input(4);
    assert_eq!(p.mag, 2);
    assert_eq!(p.page, 0x34);
    assert!(!p.hold);
    assert_eq!(&p.input, b" P234\x02");
}

#[test]
fn an_ignored_digit_still_ends_a_hold() {
    let mut p = PageInput::default();
    p.toggle_hold();
    p.input(9);
    assert!(!p.manual_hold);
    assert!(!p.hold);
    assert_eq!(&p.input, b" P100\x02");
}

#[test]
fn cancel_restores_the_wanted_page() {
    let mut p = PageInput::default();
    p.input(7);
    p.input(0xc);
    p.input(0xd);
    p.input(5);
    assert!(p.hold);
    p.cancel();
    assert!(!p.hold);
    assert_eq!(p.input_pos, 2);
    assert_eq!(p.mag, 7);
    assert_eq!(p.page, 0xcd);
    assert_eq!(&p.input, b" P7CD\x02");
}

#[test]
fn every_state_the_selector_reaches_is_valid() {
    let mut p = PageInput::default();
    assert!(p.is_valid());
    for b in [3u8, 2, 0xa, 9, 8, 16, 0, 0xf, 1, 200, 5, 5] {
        p.input(b);
        assert!(p.is_valid());
        let mut q = p;
        q.toggle_hold();
        assert!(q.is_valid());
        q.input(b);
        assert!(q.is_valid());
        q.toggle_hold();
        assert!(q.is_valid());
        q.cancel();
        assert!(q.is_valid());
    }
}

#[test]
fn fields_that_disagree_are_not_valid() {
    let good = PageInput::default();
    let mut p = good;
    p.mag = 8;
    assert!(!p.is_valid());
    let mut p = good;
    p.mag = 2;
    assert!(!p.is_valid());
    let mut p = good;
    p.page = 1;
    assert!(!p.is_valid());
    let mut p = good;
    p.hold = true;
    assert!(!p.is_valid());
    let mut p = good;
    p.manual_hold = true;
    assert!(!p.is_valid());
    let mut p = good;
    p.input_pos = 5;
    assert!(!p.is_valid());
    let mut p = good;
    p.input_pos = 3;
    assert!(!p.is_valid());
    let mut p = good;
    p.input[5] = 0x07;
    assert!(!p.is_valid());
    let mut p = good;
    p.input[2] = b'0';
    assert!(!p.is_valid());
    let mut p = good;
    p.input(4);
    p.input[2] = b'9';
    assert!(!p.is_valid());
    let mut p = good;
    p.input(4);
    p.input(0xb);
    assert!(p.is_valid());
    p.input[3] = b'b';
    assert!(!p.is_valid());
}
