use ttxi::term::{default_bg, term_color, Color};

#[test]
fn colour_indices_map_to_full_intensity_rgb() {
    assert_eq!(term_color(0), Color::Rgb { r: 0, g: 0, b: 0 });
    assert_eq!(term_color(1), Color::Rgb { r: 255, g: 0, b: 0 });
    assert_eq!(term_color(2), Color::Rgb { r: 0, g: 255, b: 0 });
    assert_eq!(term_color(3), Color::Rgb { r: 255, g: 255, b: 0 });
    assert_eq!(term_color(4), Color::Rgb { r: 0, g: 0, b: 255 });
    assert_eq!(term_color(5), Color::Rgb { r: 255, g: 0, b: 255 });
    assert_eq!(term_color(6), Color::Rgb { r: 0, g: 255, b: 255 });
    assert_eq!(term_color(7), Color::Rgb { r: 255, g: 255, b: 255 });
}

#[test]
fn colour_index_above_7_is_white() {
    assert_eq!(term_color(8), Color::Rgb { r: 255, g: 255, b: 255 });
    assert_eq!(term_color(255), Color::Rgb { r: 255, g: 255, b: 255 });
}

#[test]
fn default_background_is_black_or_the_terminals_own() {
    assert_eq!(default_bg(false), Color::Rgb { r: 0, g: 0, b: 0 });
    assert_eq!(default_bg(true), Color::Reset);
}
