//! The display elements of one row, as the `teletext` crate decodes them.

use teletext::{CharacterSet, NationalOption};
use vstd::prelude::*;

verus! {

/// What one grid byte shows once the spacing attributes to its left are applied.
#[derive(Clone, Copy, Debug, PartialEq, Eq)]
pub struct Cell {
    /// The character to print.
    pub glyph: char,
    /// Foreground colour index.
    pub foreground: u8,
    /// Background colour index.
    pub background: u8,
    /// Inside a start-box / end-box pair.
    pub boxed: bool,
    /// Concealed until revealed.
    pub conceal: bool,
    /// Flashing.
    pub flash: bool,
}

/// The cells that the `teletext` crate decodes from the bytes of one row, starting
/// from its initial state, with the English Latin character set.
pub uninterp spec fn decoded_line(bytes: Seq<u8>) -> Seq<Cell>;

/// Decodes one row with `teletext::decode_line`, which starts from the crate's
/// initial state and feeds it the bytes left to right, and looks up each element's
/// glyph with `teletext::to_char`. The crate does not export the element type, so
/// both calls stand here. Trusted: the result is a function of the bytes alone, and
/// holds one cell for each byte.
#[verifier::external_body]
pub(crate) fn decode_line(bytes: &[u8]) -> (cells: Vec<Cell>)
    ensures
        cells@ == decoded_line(bytes@),
        cells@.len() == bytes@.len(),
{
    let mut cells = Vec::with_capacity(bytes.len());
    for e in teletext::decode_line(bytes) {
        cells.push(Cell {
            glyph: teletext::to_char(&e, CharacterSet::Latin(NationalOption::English)),
            foreground: e.style.foreground,
            background: e.style.background,
            boxed: e.style.boxed,
            conceal: e.style.conceal,
            flash: e.style.flash,
        });
    }
    cells
}

} // verus!
