//! The render engine: a persistent grid of raw teletext bytes, and the terminal
//! commands that bring the screen up to date whenever the grid changes.

use crate::display::{decode_line, decoded_line};
use crate::render::{
    glyphs, lemma_glyphs_add, lemma_line_glyphs, lemma_line_mix, lemma_without_background_add,
    line_ops, render_line, without_background,
};
use crate::term::{default_bg, default_bg_spec, TermOp};
use vstd::prelude::*;

verus! {

/// Columns of the grid.
pub const COLUMNS: usize = 40;

/// Rows of the grid: the header, 24 body rows and one spare row.
pub const ROWS: usize = 26;

/// Rows that a redraw shows: the header and the body.
pub const VISIBLE_ROWS: u8 = 25;

/// The byte of an empty cell.
pub const BLANK: u8 = 0;

/// Smallest terminal width the engine starts on.
pub const MIN_COLUMNS: u16 = 41;

/// Smallest terminal height the engine starts on.
pub const MIN_LINES: u16 = 25;

/// Offsets of the page on the terminal.
#[derive(Clone, Copy, Debug, PartialEq, Eq, Structural)]
pub struct Margins {
    pub top: u16,
    pub left: u16,
}

/// Why the engine could not be set up.
#[derive(Clone, Copy, Debug, PartialEq, Eq, Structural)]
pub enum CharGenError {
    /// The terminal has fewer than 41 columns or fewer than 25 lines.
    TerminalTooSmall,
}

impl CharGenError {
    /// The text shown to the user.
    pub fn message(&self) -> (text: &'static str)
        ensures
            text@ == "Terminal too small - 41x25 required."@,
    {
        "Terminal too small - 41x25 required."
    }
}

/// The state of the render engine as a mathematical value.
pub struct Screen {
    /// 26 rows of 40 bytes.
    pub grid: Seq<Seq<u8>>,
    pub mix: bool,
    pub reveal: bool,
    pub margins: Margins,
}

/// A row of empty cells.
pub open spec fn blank_row() -> Seq<u8> {
    Seq::new(COLUMNS as nat, |c: int| BLANK)
}

/// `row` with `data` written over it from column `col` on.
pub open spec fn overwrite(row: Seq<u8>, col: int, data: Seq<u8>) -> Seq<u8> {
    row.subrange(0, col) + data + row.subrange(col + data.len(), row.len() as int)
}

/// The margins that centre a page of 41 columns and 26 lines on a terminal of the
/// given size: half the spare columns on the left, rounded down, half the spare
/// lines on top, rounded up, and nothing where the terminal is too small.
pub open spec fn centered_margins(cols: u16, lines: u16) -> Margins {
    Margins {
        top: if lines < 26 { 0u16 } else { ((lines - 26 + 1) / 2) as u16 },
        left: if cols < 41 { 0u16 } else { ((cols - 41) / 2) as u16 },
    }
}

/// The commands that take the terminal over.
pub open spec fn setup_ops() -> Seq<TermOp> {
    seq![
        TermOp::EnableRawMode,
        TermOp::EnterAlternateScreen,
        TermOp::ClearScreen,
        TermOp::DisableLineWrap,
        TermOp::HideCursor,
        TermOp::SetTitle,
        TermOp::Flush,
    ]
}

/// The commands that hand the terminal back as it was found.
pub open spec fn teardown_ops() -> Seq<TermOp> {
    seq![
        TermOp::ShowCursor,
        TermOp::EnableLineWrap,
        TermOp::LeaveAlternateScreen,
        TermOp::Flush,
        TermOp::DisableRawMode,
    ]
}

impl Screen {
    /// The grid has its fixed shape and every row has a line on the terminal.
    pub open spec fn wf(self) -> bool {
        &&& self.grid.len() == ROWS
        &&& forall|r: int| 0 <= r < ROWS ==> (#[trigger] self.grid[r]).len() == COLUMNS
        &&& self.margins.top + ROWS <= u16::MAX
    }

    /// The engine right after setup: an empty grid, no margins, both modes off.
    pub open spec fn initial() -> Screen {
        Screen {
            grid: Seq::new(ROWS as nat, |r: int| blank_row()),
            mix: false,
            reveal: false,
            margins: Margins { top: 0, left: 0 },
        }
    }

    /// The commands that draw grid row `row`; none for a row outside the grid.
    pub open spec fn row_ops(self, row: int) -> Seq<TermOp> {
        if 0 <= row < ROWS {
            line_ops(
                decoded_line(self.grid[row]),
                self.mix,
                self.reveal,
                (self.margins.top + row) as u16,
                self.margins.left,
            )
        } else {
            Seq::empty()
        }
    }

    /// The commands that draw rows 0 to `n - 1`, top down.
    pub open spec fn rows_ops(self, n: int) -> Seq<TermOp>
        decreases n,
    {
        if n <= 0 {
            Seq::empty()
        } else {
            self.rows_ops(n - 1) + self.row_ops(n - 1)
        }
    }

    /// A full redraw: clear the screen on the empty-cell background, then draw the
    /// header and the body rows.
    pub open spec fn redraw_ops(self) -> Seq<TermOp> {
        seq![TermOp::SetBackground(default_bg_spec(self.mix)), TermOp::ClearScreen] + self.rows_ops(
            VISIBLE_ROWS as int,
        )
    }

    /// `len` bytes from column `col` of row `row` lie inside the grid.
    pub open spec fn fits(row: int, col: int, len: int) -> bool {
        0 <= row < ROWS && 0 <= col && 0 <= len && col + len <= COLUMNS
    }

    /// Writing `data` at that place would change the grid.
    pub open spec fn differs(self, row: int, col: int, data: Seq<u8>) -> bool {
        Self::fits(row, col, data.len() as int) && self.grid[row].subrange(col, col + data.len())
            != data
    }

    /// The engine with `data` written into the grid at that place.
    pub open spec fn written(self, row: int, col: int, data: Seq<u8>) -> Screen {
        Screen { grid: self.grid.update(row, overwrite(self.grid[row], col, data)), ..self }
    }

    /// The engine after `data` is handed in for that place: written and the row
    /// drawn again if that changes the grid, and left alone otherwise.
    pub open spec fn inserted(self, row: int, col: int, data: Seq<u8>) -> Screen {
        if self.differs(row, col, data) {
            self.written(row, col, data)
        } else {
            self
        }
    }

    /// The commands that go with `inserted`: one drawing of the row if the grid
    /// changed, and none otherwise.
    pub open spec fn insert_ops(self, row: int, col: int, data: Seq<u8>) -> Seq<TermOp> {
        if self.differs(row, col, data) {
            self.written(row, col, data).row_ops(row)
        } else {
            Seq::empty()
        }
    }

    /// The engine with rows `from` to `to - 1` emptied.
    pub open spec fn blanked(self, from: int, to: int) -> Screen {
        Screen {
            grid: Seq::new(
                self.grid.len(),
                |r: int| if from <= r < to { blank_row() } else { self.grid[r] },
            ),
            ..self
        }
    }

    /// The commands that clear the terminal lines of rows `from` to `to - 1`.
    pub open spec fn clear_lines_ops(self, from: int, to: int) -> Seq<TermOp>
        decreases to - from,
    {
        if to <= from {
            Seq::empty()
        } else {
            self.clear_lines_ops(from, to - 1) + seq![
                TermOp::MoveTo { col: 0, row: (self.margins.top + to - 1) as u16 },
                TermOp::ClearLine,
            ]
        }
    }

    /// The commands that clear the body on the terminal.
    pub open spec fn clear_page_ops(self) -> Seq<TermOp> {
        seq![TermOp::SetBackground(default_bg_spec(self.mix))] + self.clear_lines_ops(
            1,
            VISIBLE_ROWS as int,
        )
    }

    /// The commands that clear the whole terminal.
    pub open spec fn clear_all_ops(self) -> Seq<TermOp> {
        seq![TermOp::SetBackground(default_bg_spec(self.mix)), TermOp::ClearScreen, TermOp::Flush]
    }
}

/// An engine together with the commands issued on the way to it: the means to
/// write down a sequence of engine operations in order.
pub struct Drawn {
    pub screen: Screen,
    pub ops: Seq<TermOp>,
}

impl Drawn {
    /// Nothing done yet.
    pub open spec fn start(screen: Screen) -> Drawn {
        Drawn { screen, ops: Seq::empty() }
    }

    /// Then `data` is handed in for column `col` of row `row`.
    pub open spec fn insert(self, row: int, col: int, data: Seq<u8>) -> Drawn {
        Drawn {
            screen: self.screen.inserted(row, col, data),
            ops: self.ops + self.screen.insert_ops(row, col, data),
        }
    }

    /// Then the body is emptied.
    pub open spec fn clear_page(self) -> Drawn {
        Drawn {
            screen: self.screen.blanked(1, VISIBLE_ROWS as int),
            ops: self.ops + self.screen.clear_page_ops(),
        }
    }

    /// Then the flags are set, the margins changed, and everything drawn again.
    pub open spec fn redrawn(self, mix: bool, reveal: bool, margins: Margins) -> Drawn {
        let screen = Screen { mix, reveal, margins, ..self.screen };
        Drawn { screen, ops: self.ops + screen.redraw_ops() }
    }
}

/// The render engine.
pub struct CharGen {
    grid: [[u8; 40]; 26],
    mix: bool,
    reveal: bool,
    margins: Margins,
}

impl View for CharGen {
    type V = Screen;

    closed spec fn view(&self) -> Screen {
        Screen {
            grid: Seq::new(ROWS as nat, |r: int| self.grid[r]@),
            mix: self.mix,
            reveal: self.reveal,
            margins: self.margins,
        }
    }
}

impl CharGen {
    /// Every row has a line on the terminal.
    pub open spec fn wf(&self) -> bool {
        self@.wf()
    }

    /// Sets the engine up for a terminal of `cols` columns and `lines` lines, and
    /// gives the commands that take the terminal over. Fails, with no command to
    /// carry out, on a terminal of fewer than 41 columns or 25 lines.
    pub fn new(cols: u16, lines: u16) -> (r: Result<(CharGen, Vec<TermOp>), CharGenError>)
        ensures
            cols < MIN_COLUMNS || lines < MIN_LINES <==> r is Err,
            r matches Err(e) ==> e == CharGenError::TerminalTooSmall,
            r matches Ok((chargen, ops)) ==> chargen@ == Screen::initial() && chargen.wf() && ops@
                == setup_ops(),
    {
        if cols < MIN_COLUMNS || lines < MIN_LINES {
            return Err(CharGenError::TerminalTooSmall);
        }
        let row: [u8; 40] = [BLANK; 40];
        let grid: [[u8; 40]; 26] = [row; 26];
        assert(row@ =~= blank_row());
        assert(forall|r: int| 0 <= r < ROWS ==> grid@[r] == row);
        let chargen = CharGen {
            grid,
            mix: false,
            reveal: false,
            margins: Margins { top: 0, left: 0 },
        };
        let mut ops: Vec<TermOp> = Vec::new();
        ops.push(TermOp::EnableRawMode);
        ops.push(TermOp::EnterAlternateScreen);
        ops.push(TermOp::ClearScreen);
        ops.push(TermOp::DisableLineWrap);
        ops.push(TermOp::HideCursor);
        ops.push(TermOp::SetTitle);
        ops.push(TermOp::Flush);
        assert(ops@ =~= setup_ops());
        assert forall|r: int| 0 <= r < ROWS implies #[trigger] chargen@.grid[r] == blank_row() by {
            assert(chargen.grid[r] == grid@[r]);
        }
        assert(chargen@.grid =~= Screen::initial().grid);
        Ok((chargen, ops))
    }

    /// The commands that hand the terminal back: to be carried out exactly once,
    /// on every way out, after `new` has succeeded.
    pub fn teardown() -> (ops: Vec<TermOp>)
        ensures
            ops@ == teardown_ops(),
    {
        let mut ops: Vec<TermOp> = Vec::new();
        ops.push(TermOp::ShowCursor);
        ops.push(TermOp::EnableLineWrap);
        ops.push(TermOp::LeaveAlternateScreen);
        ops.push(TermOp::Flush);
        ops.push(TermOp::DisableRawMode);
        assert(ops@ =~= teardown_ops());
        ops
    }

    /// Whether every row has a line on the terminal, as every operation expects
    /// and leaves it.
    pub fn is_valid(&self) -> (ok: bool)
        ensures
            ok == self.wf(),
    {
        self.margins.top <= u16::MAX - 26
    }

    /// The byte at column `col` of row `row`, if the grid has such a cell.
    pub fn byte_at(&self, row: u8, col: u8) -> (byte: Option<u8>)
        ensures
            byte is Some <==> row < ROWS && col < COLUMNS,
            byte matches Some(b) ==> b == self@.grid[row as int][col as int],
    {
        if (row as usize) < ROWS && (col as usize) < COLUMNS {
            Some(self.grid[row as usize][col as usize])
        } else {
            None
        }
    }

    /// The offsets of the page on the terminal.
    pub fn margins(&self) -> (margins: Margins)
        ensures
            margins == self@.margins,
    {
        self.margins
    }

    /// Whether mix mode is on.
    pub fn mix_on(&self) -> (on: bool)
        ensures
            on == self@.mix,
    {
        self.mix
    }

    /// Whether reveal mode is on.
    pub fn reveal_on(&self) -> (on: bool)
        ensures
            on == self@.reveal,
    {
        self.reveal
    }

    /// Draws grid row `row`: one glyph for each of its 40 cells. A row outside the
    /// grid draws nothing.
    pub fn render_row(&self, row: u8) -> (ops: Vec<TermOp>)
        requires
            self.wf(),
        ensures
            ops@ == self@.row_ops(row as int),
            row < ROWS ==> glyphs(ops@).len() == COLUMNS,
    {
        if row as usize >= ROWS {
            return Vec::new();
        }
        let cells = decode_line(self.grid[row as usize].as_slice());
        proof {
            lemma_line_glyphs(
                cells@,
                self.mix,
                self.reveal,
                (self.margins.top + row) as u16,
                self.margins.left,
            );
        }
        render_line(&cells, self.mix, self.reveal, self.margins.top + row as u16, self.margins.left)
    }

    /// Draws everything again: used after the margins, the grid as a whole or a
    /// display mode changed.
    pub fn redraw(&self) -> (ops: Vec<TermOp>)
        requires
            self.wf(),
        ensures
            ops@ == self@.redraw_ops(),
    {
        let mut ops: Vec<TermOp> = Vec::new();
        ops.push(TermOp::SetBackground(default_bg(self.mix)));
        ops.push(TermOp::ClearScreen);
        let ghost head = ops@;
        let mut row: u8 = 0;
        while row < VISIBLE_ROWS
            invariant
                row <= VISIBLE_ROWS,
                self.wf(),
                ops@ == head + self@.rows_ops(row as int),
            decreases VISIBLE_ROWS - row,
        {
            let mut more = self.render_row(row);
            ops.append(&mut more);
            row += 1;
        }
        ops
    }

    /// Whether the grid holds `data` from column `col` of row `row` on.
    fn holds(&self, row: usize, col: usize, data: &[u8]) -> (same: bool)
        requires
            Screen::fits(row as int, col as int, data@.len() as int),
        ensures
            same == (self@.grid[row as int].subrange(col as int, col + data@.len()) == data@),
    {
        let ghost part = self@.grid[row as int].subrange(col as int, col + data@.len());
        let mut i: usize = 0;
        while i < data.len()
            invariant
                i <= data@.len(),
                Screen::fits(row as int, col as int, data@.len() as int),
                part == self@.grid[row as int].subrange(col as int, col + data@.len()),
                forall|k: int| 0 <= k < i ==> part[k] == data@[k],
            decreases data@.len() - i,
        {
            assert(part[i as int] == self.grid[row as int][col + i]);
            if self.grid[row][col + i] != data[i] {
                return false;
            }
            i += 1;
        }
        assert(part =~= data@);
        true
    }

    /// Writes `data` into the grid from column `col` of row `row` on.
    fn write(&mut self, row: usize, col: usize, data: &[u8])
        requires
            Screen::fits(row as int, col as int, data@.len() as int),
        ensures
            final(self)@ == old(self)@.written(row as int, col as int, data@),
    {
        let ghost before = self@;
        let mut i: usize = 0;
        while i < data.len()
            invariant
                i <= data@.len(),
                Screen::fits(row as int, col as int, data@.len() as int),
                self.mix == before.mix,
                self.reveal == before.reveal,
                self.margins == before.margins,
                forall|r: int| 0 <= r < ROWS && r != row ==> self.grid[r]@ == #[trigger] before.grid[r],
                forall|c: int|
                    0 <= c < COLUMNS ==> #[trigger] self.grid[row as int][c] == if col <= c < col
                        + i {
                        data@[c - col]
                    } else {
                        before.grid[row as int][c]
                    },
            decreases data@.len() - i,
        {
            self.grid[row][col + i] = data[i];
            i += 1;
        }
        assert(self@.grid[row as int] =~= overwrite(before.grid[row as int], col as int, data@));
        assert(self@.grid =~= before.written(row as int, col as int, data@).grid);
    }

    /// Hands in `data` for column `col` of row `row` onwards. Where the grid already
    /// holds these bytes, or they do not fit into the grid, nothing happens; where
    /// it does not, they are written and the row is drawn once.
    pub fn insert_data(&mut self, row: u8, col: u8, data: &[u8]) -> (ops: Vec<TermOp>)
        requires
            old(self).wf(),
        ensures
            final(self).wf(),
            final(self)@ == old(self)@.inserted(row as int, col as int, data@),
            ops@ == old(self)@.insert_ops(row as int, col as int, data@),
    {
        let r = row as usize;
        let c = col as usize;
        if r >= ROWS || data.len() > COLUMNS || c > COLUMNS - data.len() {
            return Vec::new();
        }
        if self.holds(r, c, data) {
            return Vec::new();
        }
        self.write(r, c, data);
        self.render_row(row)
    }

    /// Empties rows `from` to `to - 1` of the grid.
    fn blank_rows(&mut self, from: usize, to: usize)
        requires
            from <= to <= ROWS,
        ensures
            final(self)@ == old(self)@.blanked(from as int, to as int),
    {
        let ghost before = self@;
        let mut row: usize = from;
        while row < to
            invariant
                from <= row <= to <= ROWS,
                self.mix == before.mix,
                self.reveal == before.reveal,
                self.margins == before.margins,
                forall|r: int|
                    0 <= r < ROWS ==> #[trigger] self.grid[r]@ == if from <= r < row {
                        blank_row()
                    } else {
                        before.grid[r]
                    },
            decreases to - row,
        {
            let blank: [u8; 40] = [BLANK; 40];
            assert(blank@ =~= blank_row());
            self.grid[row] = blank;
            row += 1;
        }
        assert(self@.grid =~= before.blanked(from as int, to as int).grid);
    }

    /// Empties the body, rows 1 to 24, and clears its lines on the terminal. The
    /// header stays.
    pub fn clear_page(&mut self) -> (ops: Vec<TermOp>)
        requires
            old(self).wf(),
        ensures
            final(self).wf(),
            final(self)@ == old(self)@.blanked(1, VISIBLE_ROWS as int),
            ops@ == old(self)@.clear_page_ops(),
    {
        let mut ops: Vec<TermOp> = Vec::new();
        ops.push(TermOp::SetBackground(default_bg(self.mix)));
        let ghost head = ops@;
        let mut row: u8 = 1;
        while row < VISIBLE_ROWS
            invariant
                1 <= row <= VISIBLE_ROWS,
                self.wf(),
                ops@ == head + self@.clear_lines_ops(1, row as int),
            decreases VISIBLE_ROWS - row,
        {
            ops.push(TermOp::MoveTo { col: 0, row: self.margins.top + row as u16 });
            ops.push(TermOp::ClearLine);
            row += 1;
            assert(ops@ =~= head + self@.clear_lines_ops(1, row as int));
        }
        self.blank_rows(1, VISIBLE_ROWS as usize);
        ops
    }

    /// Empties the whole grid, header included, and clears the terminal.
    pub fn clear_all(&mut self) -> (ops: Vec<TermOp>)
        requires
            old(self).wf(),
        ensures
            final(self).wf(),
            final(self)@ == old(self)@.blanked(0, ROWS as int),
            ops@ == old(self)@.clear_all_ops(),
    {
        self.blank_rows(0, ROWS);
        let mut ops: Vec<TermOp> = Vec::new();
        ops.push(TermOp::SetBackground(default_bg(self.mix)));
        ops.push(TermOp::ClearScreen);
        ops.push(TermOp::Flush);
        assert(ops@ =~= old(self)@.clear_all_ops());
        ops
    }

    /// Centres the page on a terminal of `cols` columns and `lines` lines and draws
    /// everything again.
    pub fn auto_margins(&mut self, cols: u16, lines: u16) -> (ops: Vec<TermOp>)
        requires
            old(self).wf(),
        ensures
            final(self).wf(),
            final(self)@ == (Screen { margins: centered_margins(cols, lines), ..old(self)@ }),
            ops@ == final(self)@.redraw_ops(),
    {
        self.margins.left = if cols < 41 {
            0
        } else {
            (cols - 41) / 2
        };
        self.margins.top = if lines < 26 {
            0
        } else {
            (lines - 26) - ((lines - 26) / 2)
        };
        assert(self@.grid =~= old(self)@.grid);
        self.redraw()
    }

    /// Puts the page at the given offsets and draws everything again.
    pub fn set_margins(&mut self, top: u16, left: u16) -> (ops: Vec<TermOp>)
        requires
            old(self).wf(),
            top + ROWS <= u16::MAX,
        ensures
            final(self).wf(),
            final(self)@ == (Screen { margins: Margins { top, left }, ..old(self)@ }),
            ops@ == final(self)@.redraw_ops(),
    {
        self.margins.left = left;
        self.margins.top = top;
        assert(self@.grid =~= old(self)@.grid);
        self.redraw()
    }

    /// Switches reveal mode, which shows concealed cells, and draws everything again.
    pub fn toggle_reveal(&mut self) -> (ops: Vec<TermOp>)
        requires
            old(self).wf(),
        ensures
            final(self).wf(),
            final(self)@ == (Screen { reveal: !old(self)@.reveal, ..old(self)@ }),
            ops@ == final(self)@.redraw_ops(),
    {
        self.reveal = !self.reveal;
        assert(self@.grid =~= old(self)@.grid);
        self.redraw()
    }

    /// Switches mix mode, which leaves the background of unboxed cells to the
    /// terminal, and draws everything again.
    pub fn mix(&mut self) -> (ops: Vec<TermOp>)
        requires
            old(self).wf(),
        ensures
            final(self).wf(),
            final(self)@ == (Screen { mix: !old(self)@.mix, ..old(self)@ }),
            ops@ == final(self)@.redraw_ops(),
    {
        self.mix = !self.mix;
        assert(self@.grid =~= old(self)@.grid);
        self.redraw()
    }
}

/// Handing bytes in keeps the engine well-formed, leaves every other row alone
/// and, where the bytes fit, leaves them in the grid.
pub proof fn lemma_inserted(screen: Screen, row: int, col: int, data: Seq<u8>)
    requires
        screen.wf(),
    ensures
        screen.inserted(row, col, data).wf(),
        screen.inserted(row, col, data).mix == screen.mix,
        screen.inserted(row, col, data).reveal == screen.reveal,
        screen.inserted(row, col, data).margins == screen.margins,
        forall|r: int|
            0 <= r < ROWS && r != row ==> #[trigger] screen.inserted(row, col, data).grid[r]
                == screen.grid[r],
        Screen::fits(row, col, data.len() as int) ==> screen.inserted(row, col, data).grid[row]
            == overwrite(screen.grid[row], col, data),
{
    let after = screen.inserted(row, col, data);
    if screen.differs(row, col, data) {
        assert forall|r: int| 0 <= r < ROWS implies (#[trigger] after.grid[r]).len() == COLUMNS by {
            if r != row {
                assert(after.grid[r] == screen.grid[r]);
            }
        }
    } else if Screen::fits(row, col, data.len() as int) {
        assert(screen.grid[row] =~= overwrite(screen.grid[row], col, data)) by {
            let part = screen.grid[row].subrange(col, col + data.len());
            assert(part == data);
            assert forall|c: int| col <= c < col + data.len() implies screen.grid[row][c] == data[c
                - col] by {
                assert(part[c - col] == screen.grid[row][c]);
            }
        }
    }
}

/// Emptying the body keeps the engine well-formed and leaves the header alone.
pub proof fn lemma_blanked(screen: Screen)
    requires
        screen.wf(),
    ensures
        screen.blanked(1, VISIBLE_ROWS as int).wf(),
        screen.blanked(1, VISIBLE_ROWS as int).grid[0] == screen.grid[0],
        forall|r: int|
            1 <= r < VISIBLE_ROWS ==> #[trigger] screen.blanked(1, VISIBLE_ROWS as int).grid[r]
                == blank_row(),
{
}

/// Handing in the same bytes for the same place twice is handing them in once:
/// the second time finds them in the grid, changes nothing and draws nothing. So
/// the row is drawn exactly once where the bytes were new, and not at all where
/// they were not.
pub proof fn lemma_insert_twice(s: Screen, row: int, col: int, data: Seq<u8>)
    requires
        s.wf(),
    ensures
        s.inserted(row, col, data).wf(),
        !s.inserted(row, col, data).differs(row, col, data),
        Drawn::start(s).insert(row, col, data).insert(row, col, data) == Drawn::start(s).insert(
            row,
            col,
            data,
        ),
        Drawn::start(s).insert(row, col, data).insert(row, col, data).ops == if s.differs(
            row,
            col,
            data,
        ) {
            s.written(row, col, data).row_ops(row)
        } else {
            Seq::empty()
        },
{
    let once = Drawn::start(s).insert(row, col, data);
    let twice = once.insert(row, col, data);
    if s.differs(row, col, data) {
        let w = s.written(row, col, data);
        assert(w.grid[row].subrange(col, col + data.len()) =~= data);
        assert(w.grid.len() == ROWS);
        assert forall|r: int| 0 <= r < ROWS implies (#[trigger] w.grid[r]).len() == COLUMNS by {
            if r != row {
                assert(w.grid[r] == s.grid[r]);
            }
        }
        assert(once.ops =~= w.row_ops(row));
    } else {
        assert(once.ops =~= Seq::<TermOp>::empty());
    }
    assert(twice.ops =~= once.ops);
}

proof fn lemma_rows_mix(s: Screen, n: int)
    requires
        s.wf(),
        0 <= n <= ROWS,
    ensures
        without_background((Screen { mix: true, ..s }).rows_ops(n)) == without_background(
            (Screen { mix: false, ..s }).rows_ops(n),
        ),
        glyphs((Screen { mix: true, ..s }).rows_ops(n)) == glyphs(
            (Screen { mix: false, ..s }).rows_ops(n),
        ),
    decreases n,
{
    let on = Screen { mix: true, ..s };
    let off = Screen { mix: false, ..s };
    if n > 0 {
        lemma_rows_mix(s, n - 1);
        lemma_line_mix(
            decoded_line(s.grid[n - 1]),
            s.reveal,
            (s.margins.top + (n - 1)) as u16,
            s.margins.left,
        );
        lemma_without_background_add(on.rows_ops(n - 1), on.row_ops(n - 1));
        lemma_without_background_add(off.rows_ops(n - 1), off.row_ops(n - 1));
        lemma_glyphs_add(on.rows_ops(n - 1), on.row_ops(n - 1));
        lemma_glyphs_add(off.rows_ops(n - 1), off.row_ops(n - 1));
    }
}

/// A full redraw with mix mode on and one with mix mode off differ in the commands
/// that set the background and in nothing else; the glyphs printed are the same.
pub proof fn lemma_redraw_mix(s: Screen)
    requires
        s.wf(),
    ensures
        without_background((Screen { mix: true, ..s }).redraw_ops()) == without_background(
            (Screen { mix: false, ..s }).redraw_ops(),
        ),
        glyphs((Screen { mix: true, ..s }).redraw_ops()) == glyphs(
            (Screen { mix: false, ..s }).redraw_ops(),
        ),
{
    let on = Screen { mix: true, ..s };
    let off = Screen { mix: false, ..s };
    let head_on = seq![TermOp::SetBackground(default_bg_spec(true)), TermOp::ClearScreen];
    let head_off = seq![TermOp::SetBackground(default_bg_spec(false)), TermOp::ClearScreen];
    lemma_rows_mix(s, VISIBLE_ROWS as int);
    lemma_without_background_add(head_on, on.rows_ops(VISIBLE_ROWS as int));
    lemma_without_background_add(head_off, off.rows_ops(VISIBLE_ROWS as int));
    lemma_glyphs_add(head_on, on.rows_ops(VISIBLE_ROWS as int));
    lemma_glyphs_add(head_off, off.rows_ops(VISIBLE_ROWS as int));
    assert(without_background(head_on) == seq![TermOp::ClearScreen] && glyphs(head_on)
        == Seq::<char>::empty()) by {
        assert(head_on.drop_last() =~= seq![TermOp::SetBackground(default_bg_spec(true))]);
        assert(head_on.drop_last().drop_last() =~= Seq::<TermOp>::empty());
        reveal_with_fuel(without_background, 3);
        reveal_with_fuel(glyphs, 3);
        assert(without_background(head_on) =~= seq![TermOp::ClearScreen]);
    }
    assert(without_background(head_off) == seq![TermOp::ClearScreen] && glyphs(head_off)
        == Seq::<char>::empty()) by {
        assert(head_off.drop_last() =~= seq![TermOp::SetBackground(default_bg_spec(false))]);
        assert(head_off.drop_last().drop_last() =~= Seq::<TermOp>::empty());
        reveal_with_fuel(without_background, 3);
        reveal_with_fuel(glyphs, 3);
        assert(without_background(head_off) =~= seq![TermOp::ClearScreen]);
    }
}

} // verus!
