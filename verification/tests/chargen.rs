use ttxi::chargen::{CharGen, CharGenError, Margins};
use ttxi::term::{Attribute, Color, TermOp};

const BLACK: Color = Color::Rgb { r: 0, g: 0, b: 0 };
const RED: Color = Color::Rgb { r: 255, g: 0, b: 0 };
const GREEN: Color = Color::Rgb { r: 0, g: 255, b: 0 };
const WHITE: Color = Color::Rgb { r: 255, g: 255, b: 255 };

fn engine() -> CharGen {
    let (chargen, _) = CharGen::new(41, 25).unwrap();
    chargen
}

fn row_start(line: u16, left: u16, background: Color) -> Vec<TermOp> {
    vec![
        TermOp::MoveTo { col: 0, row: line },
        TermOp::SetForeground(RED),
        TermOp::SetBackground(background),
        TermOp::Spaces(left),
    ]
}

fn row_end(background: Color) -> Vec<TermOp> {
    vec![TermOp::SetBackground(background), TermOp::Spaces(5), TermOp::Flush]
}

fn blanks(n: usize) -> Vec<TermOp> {
    vec![TermOp::Print(' '); n]
}

fn blank_row_ops(line: u16, left: u16, background: Color) -> Vec<TermOp> {
    let mut ops = row_start(line, left, background);
    ops.push(TermOp::SetForeground(WHITE));
    ops.extend(blanks(40));
    ops.extend(row_end(background));
    ops
}

fn glyphs_of(ops: &[TermOp]) -> Vec<char> {
    let mut glyphs = Vec::new();
    for op in ops {
        if let TermOp::Print(c) = op {
            glyphs.push(*c);
        }
    }
    glyphs
}

fn without_background(ops: &[TermOp]) -> Vec<TermOp> {
    let mut rest = Vec::new();
    for op in ops {
        if !matches!(op, TermOp::SetBackground(_)) {
            rest.push(*op);
        }
    }
    rest
}

#[test]
fn new_takes_the_terminal_over() {
    let (chargen, ops) = CharGen::new(41, 25).unwrap();
    assert_eq!(
        ops,
        vec![
            TermOp::EnableRawMode,
            TermOp::EnterAlternateScreen,
            TermOp::ClearScreen,
            TermOp::DisableLineWrap,
            TermOp::HideCursor,
            TermOp::SetTitle,
            TermOp::Flush,
        ]
    );
    assert_eq!(chargen.margins(), Margins { top: 0, left: 0 });
    assert!(!chargen.mix_on());
    assert!(!chargen.reveal_on());
    for row in 0..26 {
        for col in 0..40 {
            assert_eq!(chargen.byte_at(row, col), Some(0));
        }
    }
}

#[test]
fn new_fails_on_a_small_terminal_with_nothing_to_carry_out() {
    assert_eq!(CharGen::new(40, 25).err(), Some(CharGenError::TerminalTooSmall));
    assert_eq!(CharGen::new(41, 24).err(), Some(CharGenError::TerminalTooSmall));
    assert_eq!(CharGen::new(0, 0).err(), Some(CharGenError::TerminalTooSmall));
    assert_eq!(CharGen::new(200, 24).err(), Some(CharGenError::TerminalTooSmall));
    assert_eq!(CharGen::new(40, 200).err(), Some(CharGenError::TerminalTooSmall));
    assert!(CharGen::new(41, 25).is_ok());
    assert!(CharGen::new(65535, 65535).is_ok());
}

#[test]
fn too_small_has_its_message() {
    assert_eq!(CharGenError::TerminalTooSmall.message(), "Terminal too small - 41x25 required.");
}

#[test]
fn teardown_hands_the_terminal_back() {
    assert_eq!(
        CharGen::teardown(),
        vec![
            TermOp::ShowCursor,
            TermOp::EnableLineWrap,
            TermOp::LeaveAlternateScreen,
            TermOp::Flush,
            TermOp::DisableRawMode,
        ]
    );
}

#[test]
fn byte_at_outside_the_grid_is_none() {
    let chargen = engine();
    assert_eq!(chargen.byte_at(26, 0), None);
    assert_eq!(chargen.byte_at(0, 40), None);
    assert_eq!(chargen.byte_at(255, 255), None);
    assert_eq!(chargen.byte_at(25, 39), Some(0));
}

#[test]
fn empty_row_renders_as_blanks() {
    let chargen = engine();
    assert_eq!(chargen.render_row(3), blank_row_ops(3, 0, BLACK));
}

#[test]
fn row_outside_the_grid_renders_nothing() {
    let chargen = engine();
    assert!(chargen.render_row(26).is_empty());
    assert!(chargen.render_row(255).is_empty());
    assert!(!chargen.render_row(25).is_empty());
}

#[test]
fn insert_writes_and_renders_the_row_once() {
    let mut chargen = engine();
    let ops = chargen.insert_data(1, 0, b"AB");
    let mut expected = row_start(1, 0, BLACK);
    expected.push(TermOp::SetForeground(WHITE));
    expected.push(TermOp::Print('A'));
    expected.push(TermOp::Print('B'));
    expected.extend(blanks(38));
    expected.extend(row_end(BLACK));
    assert_eq!(ops, expected);
    assert_eq!(chargen.byte_at(1, 0), Some(b'A'));
    assert_eq!(chargen.byte_at(1, 1), Some(b'B'));
    assert_eq!(chargen.byte_at(1, 2), Some(0));
    assert_eq!(chargen.byte_at(0, 0), Some(0));
    assert_eq!(chargen.byte_at(2, 0), Some(0));
}

#[test]
fn insert_of_the_same_bytes_twice_renders_once() {
    let mut chargen = engine();
    let first = chargen.insert_data(5, 10, b"HELLO");
    assert!(!first.is_empty());
    assert_eq!(first, chargen.render_row(5));
    let second = chargen.insert_data(5, 10, b"HELLO");
    assert!(second.is_empty());
    for (i, byte) in b"HELLO".iter().enumerate() {
        assert_eq!(chargen.byte_at(5, 10 + i as u8), Some(*byte));
    }
}

#[test]
fn insert_of_what_the_grid_holds_renders_nothing() {
    let mut chargen = engine();
    assert!(chargen.insert_data(7, 3, &[0, 0, 0]).is_empty());
    assert!(chargen.insert_data(7, 3, &[]).is_empty());
}

#[test]
fn insert_in_the_middle_keeps_the_rest_of_the_row() {
    let mut chargen = engine();
    chargen.insert_data(2, 0, &[b'x'; 40]);
    chargen.insert_data(2, 38, b"yz");
    chargen.insert_data(2, 5, b"Q");
    for col in 0..40u8 {
        let expected = match col {
            5 => b'Q',
            38 => b'y',
            39 => b'z',
            _ => b'x',
        };
        assert_eq!(chargen.byte_at(2, col), Some(expected));
    }
}

#[test]
fn insert_outside_the_grid_is_dropped() {
    let mut chargen = engine();
    assert!(chargen.insert_data(26, 0, b"A").is_empty());
    assert!(chargen.insert_data(0, 40, b"A").is_empty());
    assert!(chargen.insert_data(0, 39, b"AB").is_empty());
    assert!(chargen.insert_data(0, 0, &[b'A'; 41]).is_empty());
    assert!(chargen.insert_data(0, 255, &[b'A'; 40]).is_empty());
    for row in 0..26 {
        for col in 0..40 {
            assert_eq!(chargen.byte_at(row, col), Some(0));
        }
    }
    assert!(!chargen.insert_data(25, 39, b"A").is_empty());
    assert_eq!(chargen.byte_at(25, 39), Some(b'A'));
}

#[test]
fn colour_code_takes_effect_after_its_cell() {
    let mut chargen = engine();
    let ops = chargen.insert_data(1, 0, &[0x01, b'A', 0x02, b'B']);
    let mut expected = row_start(1, 0, BLACK);
    expected.push(TermOp::SetForeground(WHITE));
    expected.push(TermOp::Print(' '));
    expected.push(TermOp::SetForeground(RED));
    expected.push(TermOp::Print('A'));
    expected.push(TermOp::Print(' '));
    expected.push(TermOp::SetForeground(GREEN));
    expected.push(TermOp::Print('B'));
    expected.extend(blanks(36));
    expected.extend(row_end(BLACK));
    assert_eq!(ops, expected);
}

#[test]
fn top_bit_of_a_byte_is_ignored() {
    let mut chargen = engine();
    let ops = chargen.insert_data(1, 0, &[0xc1]);
    assert_eq!(glyphs_of(&ops)[0], 'A');
}

#[test]
fn flash_is_switched_on_and_off() {
    let mut chargen = engine();
    let ops = chargen.insert_data(1, 0, &[0x08, b'A', 0x09, b'B']);
    let mut expected = row_start(1, 0, BLACK);
    expected.push(TermOp::SetForeground(WHITE));
    expected.push(TermOp::Print(' '));
    expected.push(TermOp::SetAttribute(Attribute::SlowBlink));
    expected.push(TermOp::Print('A'));
    expected.push(TermOp::SetAttribute(Attribute::NoBlink));
    expected.push(TermOp::Print(' '));
    expected.push(TermOp::Print('B'));
    expected.extend(blanks(36));
    expected.extend(row_end(BLACK));
    assert_eq!(ops, expected);
}

#[test]
fn conceal_hides_until_the_next_colour() {
    let mut chargen = engine();
    let ops = chargen.insert_data(1, 0, &[0x18, b'A', 0x07, b'B']);
    let mut expected = row_start(1, 0, BLACK);
    expected.push(TermOp::SetForeground(WHITE));
    expected.push(TermOp::SetAttribute(Attribute::Hidden));
    expected.push(TermOp::Print(' '));
    expected.push(TermOp::Print('A'));
    expected.push(TermOp::Print(' '));
    expected.push(TermOp::SetAttribute(Attribute::NoHidden));
    expected.push(TermOp::Print('B'));
    expected.extend(blanks(36));
    expected.extend(row_end(BLACK));
    assert_eq!(ops, expected);
}

#[test]
fn reveal_shows_concealed_cells() {
    let mut chargen = engine();
    chargen.insert_data(1, 0, &[0x18, b'A', 0x07, b'B']);
    let ops = chargen.toggle_reveal();
    assert!(chargen.reveal_on());
    assert!(!ops.contains(&TermOp::SetAttribute(Attribute::Hidden)));
    assert!(!ops.contains(&TermOp::SetAttribute(Attribute::NoHidden)));
    let mut expected = row_start(1, 0, BLACK);
    expected.push(TermOp::SetForeground(WHITE));
    expected.push(TermOp::Print(' '));
    expected.push(TermOp::Print('A'));
    expected.push(TermOp::Print(' '));
    expected.push(TermOp::Print('B'));
    expected.extend(blanks(36));
    expected.extend(row_end(BLACK));
    assert_eq!(chargen.render_row(1), expected);
    let again = chargen.toggle_reveal();
    assert!(!chargen.reveal_on());
    assert!(again.contains(&TermOp::SetAttribute(Attribute::Hidden)));
}

#[test]
fn new_background_takes_the_foreground_at_once() {
    let mut chargen = engine();
    let ops = chargen.insert_data(1, 0, &[0x01, 0x1d, b'A', 0x1c, b'B']);
    let mut expected = row_start(1, 0, BLACK);
    expected.push(TermOp::SetForeground(WHITE));
    expected.push(TermOp::Print(' '));
    expected.push(TermOp::SetBackground(RED));
    expected.push(TermOp::SetForeground(RED));
    expected.push(TermOp::Print(' '));
    expected.push(TermOp::Print('A'));
    expected.push(TermOp::SetBackground(BLACK));
    expected.push(TermOp::Print(' '));
    expected.push(TermOp::Print('B'));
    expected.extend(blanks(35));
    expected.extend(row_end(BLACK));
    assert_eq!(ops, expected);
}

#[test]
fn mosaic_bytes_print_block_glyphs() {
    let mut chargen = engine();
    let ops = chargen.insert_data(1, 0, &[0x17, 0x7f, 0x41, 0x20]);
    let glyphs = glyphs_of(&ops);
    assert_eq!(glyphs[0], ' ');
    assert_eq!(glyphs[1], '█');
    assert_eq!(glyphs[2], 'A');
    assert_eq!(glyphs[3], ' ');
    assert_eq!(glyphs.len(), 40);
}

#[test]
fn english_option_replaces_the_pound_sign() {
    let mut chargen = engine();
    let ops = chargen.insert_data(1, 0, &[0x23, 0x7f]);
    let glyphs = glyphs_of(&ops);
    assert_eq!(glyphs[0], '£');
    assert_eq!(glyphs[1], '■');
}

#[test]
fn mix_leaves_unboxed_backgrounds_to_the_terminal() {
    let mut chargen = engine();
    chargen.insert_data(1, 0, &[0x0b, b'A', 0x0a, b'B']);
    let ops = chargen.mix();
    assert!(chargen.mix_on());
    assert_eq!(ops, chargen.redraw());
    let mut expected = row_start(1, 0, Color::Reset);
    expected.push(TermOp::SetForeground(WHITE));
    expected.push(TermOp::Print(' '));
    expected.push(TermOp::SetBackground(BLACK));
    expected.push(TermOp::Print('A'));
    expected.push(TermOp::Print(' '));
    expected.push(TermOp::SetBackground(Color::Reset));
    expected.push(TermOp::Print('B'));
    expected.extend(blanks(36));
    expected.extend(row_end(Color::Reset));
    assert_eq!(chargen.render_row(1), expected);
    chargen.mix();
    assert!(!chargen.mix_on());
}

#[test]
fn mix_changes_background_commands_only() {
    let mut chargen = engine();
    chargen.insert_data(0, 2, b" P100\x02");
    chargen.insert_data(1, 0, &[0x01, 0x1d, 0x07, b'R', b'e', b'd', 0x1c, 0x0b, b'x', 0x0a]);
    chargen.insert_data(2, 0, &[0x14, 0x1d, 0x13, 0x7f, 0x35, 0x18, b'h', 0x08, b'f']);
    chargen.insert_data(24, 30, b"last row");
    let plain = chargen.redraw();
    let mixed = chargen.mix();
    assert_ne!(plain, mixed);
    assert_eq!(without_background(&plain), without_background(&mixed));
    assert_eq!(glyphs_of(&plain), glyphs_of(&mixed));
    assert_eq!(glyphs_of(&plain).len(), 25 * 40);
}

#[test]
fn redraw_clears_and_renders_the_visible_rows() {
    let mut chargen = engine();
    chargen.insert_data(0, 0, b"head");
    chargen.insert_data(24, 0, b"foot");
    chargen.insert_data(25, 0, b"spare");
    let mut expected = vec![TermOp::SetBackground(BLACK), TermOp::ClearScreen];
    for row in 0..25 {
        expected.extend(chargen.render_row(row));
    }
    let ops = chargen.redraw();
    assert_eq!(ops, expected);
    let glyphs: String = glyphs_of(&ops).into_iter().collect();
    assert!(glyphs.contains("head"));
    assert!(glyphs.contains("foot"));
    assert!(!glyphs.contains("spare"));
}

#[test]
fn auto_margins_centres_the_page() {
    let mut chargen = engine();
    let ops = chargen.auto_margins(80, 30);
    assert_eq!(chargen.margins(), Margins { top: 2, left: 19 });
    assert_eq!(ops, chargen.redraw());
    assert_eq!(ops[2], TermOp::MoveTo { col: 0, row: 2 });
    assert_eq!(ops[5], TermOp::Spaces(19));
    chargen.auto_margins(100, 31);
    assert_eq!(chargen.margins(), Margins { top: 3, left: 29 });
    chargen.auto_margins(42, 27);
    assert_eq!(chargen.margins(), Margins { top: 1, left: 0 });
    chargen.auto_margins(43, 28);
    assert_eq!(chargen.margins(), Margins { top: 1, left: 1 });
    chargen.auto_margins(65535, 65535);
    assert_eq!(chargen.margins(), Margins { top: 32755, left: 32747 });
}

#[test]
fn auto_margins_clamps_to_zero_on_a_small_terminal() {
    let mut chargen = engine();
    chargen.auto_margins(80, 30);
    chargen.auto_margins(41, 26);
    assert_eq!(chargen.margins(), Margins { top: 0, left: 0 });
    chargen.auto_margins(80, 30);
    chargen.auto_margins(10, 5);
    assert_eq!(chargen.margins(), Margins { top: 0, left: 0 });
    chargen.auto_margins(0, 0);
    assert_eq!(chargen.margins(), Margins { top: 0, left: 0 });
}

#[test]
fn set_margins_moves_the_page() {
    let mut chargen = engine();
    let ops = chargen.set_margins(4, 7);
    assert_eq!(chargen.margins(), Margins { top: 4, left: 7 });
    assert_eq!(ops, chargen.redraw());
    assert_eq!(chargen.render_row(3), blank_row_ops(7, 7, BLACK));
    assert_eq!(chargen.render_row(24), blank_row_ops(28, 7, BLACK));
}

#[test]
fn clear_page_empties_the_body_and_keeps_the_header() {
    let mut chargen = engine();
    chargen.set_margins(3, 0);
    chargen.insert_data(0, 0, b"header");
    for row in 1..26 {
        chargen.insert_data(row, 0, &[b'a' + row; 40]);
    }
    let ops = chargen.clear_page();
    let mut expected = vec![TermOp::SetBackground(BLACK)];
    for row in 1..25 {
        expected.push(TermOp::MoveTo { col: 0, row: 3 + row });
        expected.push(TermOp::ClearLine);
    }
    assert_eq!(ops, expected);
    assert_eq!(chargen.byte_at(0, 0), Some(b'h'));
    for row in 1..25 {
        for col in 0..40 {
            assert_eq!(chargen.byte_at(row, col), Some(0));
        }
    }
    assert_eq!(chargen.byte_at(25, 0), Some(b'a' + 25));
}

#[test]
fn clear_all_empties_every_row() {
    let mut chargen = engine();
    for row in 0..26 {
        chargen.insert_data(row, 0, &[b'a' + row; 40]);
    }
    let ops = chargen.clear_all();
    assert_eq!(ops, vec![TermOp::SetBackground(BLACK), TermOp::ClearScreen, TermOp::Flush]);
    for row in 0..26 {
        for col in 0..40 {
            assert_eq!(chargen.byte_at(row, col), Some(0));
        }
    }
}

#[test]
fn clear_in_mix_mode_uses_the_terminal_background() {
    let mut chargen = engine();
    chargen.mix();
    assert_eq!(chargen.clear_page()[0], TermOp::SetBackground(Color::Reset));
    assert_eq!(chargen.clear_all()[0], TermOp::SetBackground(Color::Reset));
}

#[test]
fn engine_stays_valid() {
    let mut chargen = engine();
    assert!(chargen.is_valid());
    chargen.auto_margins(65535, 65535);
    assert!(chargen.is_valid());
    chargen.set_margins(65509, 65535);
    assert!(chargen.is_valid());
    assert_eq!(chargen.render_row(25)[0], TermOp::MoveTo { col: 0, row: 65534 });
    chargen.insert_data(0, 0, b"x");
    chargen.clear_all();
    chargen.mix();
    chargen.toggle_reveal();
    assert!(chargen.is_valid());
}
