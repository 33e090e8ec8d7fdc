use ttxi::keymap::{Button, KeyCode, KeyEvent, NO_MODIFIERS, SHIFT};

fn plain(code: KeyCode) -> KeyEvent {
    KeyEvent { code, modifiers: NO_MODIFIERS }
}

#[test]
fn digits_and_letters_a_to_f_are_digits() {
    let keys = "0123456789abcdef";
    for (value, c) in keys.chars().enumerate() {
        assert_eq!(Button::from_event(plain(KeyCode::Char(c))), Some(Button::Digit(value as u8)));
    }
}

#[test]
fn upper_case_letters_are_no_digits() {
    assert_eq!(Button::from_event(plain(KeyCode::Char('A'))), None);
    assert_eq!(Button::from_event(plain(KeyCode::Char('g'))), None);
}

#[test]
fn shifted_digits_0_to_6_are_shortcuts() {
    for (value, c) in "0123456".chars().enumerate() {
        let key = KeyEvent { code: KeyCode::Char(c), modifiers: SHIFT };
        assert_eq!(Button::from_event(key), Some(Button::Fastext(value as u8)));
    }
    assert_eq!(Button::from_event(KeyEvent { code: KeyCode::Char('7'), modifiers: SHIFT }), None);
    assert_eq!(Button::from_event(KeyEvent { code: KeyCode::Char('h'), modifiers: SHIFT }), None);
    assert_eq!(Button::from_event(KeyEvent { code: KeyCode::Up, modifiers: SHIFT }), None);
}

#[test]
fn letters_map_to_their_buttons() {
    assert_eq!(Button::from_event(plain(KeyCode::Char('h'))), Some(Button::Hold));
    assert_eq!(Button::from_event(plain(KeyCode::Char(' '))), Some(Button::Hold));
    assert_eq!(Button::from_event(plain(KeyCode::Char('r'))), Some(Button::Reveal));
    assert_eq!(Button::from_event(plain(KeyCode::Char('t'))), Some(Button::TimedPage));
    assert_eq!(Button::from_event(plain(KeyCode::Char('m'))), Some(Button::Mix));
    assert_eq!(Button::from_event(plain(KeyCode::Char('x'))), None);
}

#[test]
fn arrows_and_page_keys_step_pages() {
    assert_eq!(Button::from_event(plain(KeyCode::Up)), Some(Button::PageNext));
    assert_eq!(Button::from_event(plain(KeyCode::Right)), Some(Button::PageNext));
    assert_eq!(Button::from_event(plain(KeyCode::PageUp)), Some(Button::PageNext));
    assert_eq!(Button::from_event(plain(KeyCode::Down)), Some(Button::PagePrev));
    assert_eq!(Button::from_event(plain(KeyCode::Left)), Some(Button::PagePrev));
    assert_eq!(Button::from_event(plain(KeyCode::PageDown)), Some(Button::PagePrev));
    assert_eq!(Button::from_event(plain(KeyCode::Other)), None);
}

#[test]
fn other_modifiers_map_to_nothing() {
    for modifiers in [2u8, 3, 4, 8, 0x21, 0xff] {
        assert_eq!(Button::from_event(KeyEvent { code: KeyCode::Char('1'), modifiers }), None);
        assert_eq!(Button::from_event(KeyEvent { code: KeyCode::Up, modifiers }), None);
    }
}
