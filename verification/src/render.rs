//! Rendering one row of decoded cells as terminal commands: an attribute is sent only
//! where it differs from the one in force, and every cell prints its glyph.

use crate::display::Cell;
use crate::term::{default_bg, default_bg_spec, term_color, term_color_spec, Attribute, Color, TermOp};
use vstd::prelude::*;

verus! {

/// The terminal attributes in force at the cursor.
#[derive(Clone, Copy, Debug, PartialEq, Eq, Structural)]
pub struct Pen {
    pub foreground: Color,
    pub background: Color,
    pub conceal: bool,
    pub flash: bool,
}

/// Number of blanks printed after the last cell of a row.
pub const RIGHT_PAD: u16 = 5;

/// The attributes at the start of every row: red on the empty-cell background,
/// neither concealed nor flashing.
pub open spec fn initial_pen(mix: bool) -> Pen {
    Pen { foreground: term_color_spec(1), background: default_bg_spec(mix), conceal: false, flash: false }
}

/// The background a cell is drawn on: the terminal's own under `mix` unless the cell
/// is boxed, the cell's background colour otherwise.
pub open spec fn cell_background(cell: Cell, mix: bool) -> Color {
    if mix && !cell.boxed {
        Color::Reset
    } else {
        term_color_spec(cell.background)
    }
}

/// The attributes a cell is drawn with. `reveal` switches concealment off.
pub open spec fn cell_pen(cell: Cell, mix: bool, reveal: bool) -> Pen {
    Pen {
        foreground: term_color_spec(cell.foreground),
        background: cell_background(cell, mix),
        conceal: cell.conceal && !reveal,
        flash: cell.flash,
    }
}

/// The command that switches the background, if it differs.
pub open spec fn background_change(pen: Pen, next: Pen) -> Seq<TermOp> {
    if next.background != pen.background {
        seq![TermOp::SetBackground(next.background)]
    } else {
        Seq::empty()
    }
}

/// The command that switches the foreground, if it differs.
pub open spec fn foreground_change(pen: Pen, next: Pen) -> Seq<TermOp> {
    if next.foreground != pen.foreground {
        seq![TermOp::SetForeground(next.foreground)]
    } else {
        Seq::empty()
    }
}

/// The command that switches concealment, if it differs.
pub open spec fn conceal_change(pen: Pen, next: Pen) -> Seq<TermOp> {
    if next.conceal != pen.conceal {
        seq![TermOp::SetAttribute(if next.conceal { Attribute::Hidden } else { Attribute::NoHidden })]
    } else {
        Seq::empty()
    }
}

/// The command that switches flashing, if it differs.
pub open spec fn flash_change(pen: Pen, next: Pen) -> Seq<TermOp> {
    if next.flash != pen.flash {
        seq![TermOp::SetAttribute(if next.flash { Attribute::SlowBlink } else { Attribute::NoBlink })]
    } else {
        Seq::empty()
    }
}

/// The commands that change the attributes in force from `pen` to `next`:
/// background, foreground, concealment, flashing, each only if it differs.
pub open spec fn pen_change(pen: Pen, next: Pen) -> Seq<TermOp> {
    background_change(pen, next) + foreground_change(pen, next) + conceal_change(pen, next)
        + flash_change(pen, next)
}

/// The commands for one cell with `pen` in force: the attribute changes, then the glyph.
pub open spec fn cell_ops(pen: Pen, cell: Cell, mix: bool, reveal: bool) -> Seq<TermOp> {
    pen_change(pen, cell_pen(cell, mix, reveal)).push(TermOp::Print(cell.glyph))
}

/// The attributes in force after the cells were drawn, starting from `pen`.
pub open spec fn pen_after(pen: Pen, cells: Seq<Cell>, mix: bool, reveal: bool) -> Pen {
    if cells.len() == 0 {
        pen
    } else {
        cell_pen(cells.last(), mix, reveal)
    }
}

/// The commands for a run of cells, left to right, with `pen` in force at the start.
pub open spec fn cells_ops(pen: Pen, cells: Seq<Cell>, mix: bool, reveal: bool) -> Seq<TermOp>
    decreases cells.len(),
{
    if cells.len() == 0 {
        Seq::empty()
    } else {
        let before = cells.drop_last();
        cells_ops(pen, before, mix, reveal) + cell_ops(
            pen_after(pen, before, mix, reveal),
            cells.last(),
            mix,
            reveal,
        )
    }
}

/// The commands that draw one row at terminal line `line`: go to the start of the
/// line, set the initial attributes, print the left margin, draw the cells, then pad
/// with blanks on the empty-cell background and flush.
pub open spec fn line_ops(cells: Seq<Cell>, mix: bool, reveal: bool, line: u16, left: u16) -> Seq<TermOp> {
    seq![
        TermOp::MoveTo { col: 0, row: line },
        TermOp::SetForeground(term_color_spec(1)),
        TermOp::SetBackground(default_bg_spec(mix)),
        TermOp::Spaces(left),
    ] + cells_ops(initial_pen(mix), cells, mix, reveal) + seq![
        TermOp::SetBackground(default_bg_spec(mix)),
        TermOp::Spaces(RIGHT_PAD),
        TermOp::Flush,
    ]
}

fn push_background_change(ops: &mut Vec<TermOp>, pen: Pen, next: Pen)
    ensures
        final(ops)@ == old(ops)@ + background_change(pen, next),
{
    if next.background != pen.background {
        ops.push(TermOp::SetBackground(next.background));
    }
    assert(ops@ =~= old(ops)@ + background_change(pen, next));
}

fn push_foreground_change(ops: &mut Vec<TermOp>, pen: Pen, next: Pen)
    ensures
        final(ops)@ == old(ops)@ + foreground_change(pen, next),
{
    if next.foreground != pen.foreground {
        ops.push(TermOp::SetForeground(next.foreground));
    }
    assert(ops@ =~= old(ops)@ + foreground_change(pen, next));
}

fn push_conceal_change(ops: &mut Vec<TermOp>, pen: Pen, next: Pen)
    ensures
        final(ops)@ == old(ops)@ + conceal_change(pen, next),
{
    if next.conceal != pen.conceal {
        if next.conceal {
            ops.push(TermOp::SetAttribute(Attribute::Hidden));
        } else {
            ops.push(TermOp::SetAttribute(Attribute::NoHidden));
        }
    }
    assert(ops@ =~= old(ops)@ + conceal_change(pen, next));
}

fn push_flash_change(ops: &mut Vec<TermOp>, pen: Pen, next: Pen)
    ensures
        final(ops)@ == old(ops)@ + flash_change(pen, next),
{
    if next.flash != pen.flash {
        if next.flash {
            ops.push(TermOp::SetAttribute(Attribute::SlowBlink));
        } else {
            ops.push(TermOp::SetAttribute(Attribute::NoBlink));
        }
    }
    assert(ops@ =~= old(ops)@ + flash_change(pen, next));
}

/// The attributes a cell is drawn with.
fn pen_of_cell(cell: Cell, mix: bool, reveal: bool) -> (pen: Pen)
    ensures
        pen == cell_pen(cell, mix, reveal),
{
    Pen {
        foreground: term_color(cell.foreground),
        background: if mix && !cell.boxed {
            Color::Reset
        } else {
            term_color(cell.background)
        },
        conceal: cell.conceal && !reveal,
        flash: cell.flash,
    }
}

/// Appends to `ops` the commands for one cell drawn with `pen` in force.
fn render_cell(ops: &mut Vec<TermOp>, pen: Pen, cell: Cell, mix: bool, reveal: bool) -> (next: Pen)
    ensures
        final(ops)@ == old(ops)@ + cell_ops(pen, cell, mix, reveal),
        next == cell_pen(cell, mix, reveal),
{
    let next = pen_of_cell(cell, mix, reveal);
    push_background_change(ops, pen, next);
    push_foreground_change(ops, pen, next);
    push_conceal_change(ops, pen, next);
    push_flash_change(ops, pen, next);
    ops.push(TermOp::Print(cell.glyph));
    assert(ops@ =~= old(ops)@ + cell_ops(pen, cell, mix, reveal));
    next
}

/// Draws one decoded row at terminal line `line`, behind a left margin of `left` blanks.
pub fn render_line(cells: &Vec<Cell>, mix: bool, reveal: bool, line: u16, left: u16) -> (ops: Vec<TermOp>)
    ensures
        ops@ == line_ops(cells@, mix, reveal, line, left),
{
    let fg = term_color(1);
    let bg = default_bg(mix);
    let mut ops: Vec<TermOp> = Vec::new();
    ops.push(TermOp::MoveTo { col: 0, row: line });
    ops.push(TermOp::SetForeground(fg));
    ops.push(TermOp::SetBackground(bg));
    ops.push(TermOp::Spaces(left));
    let ghost head = ops@;
    let mut pen = Pen { foreground: fg, background: bg, conceal: false, flash: false };
    let mut i: usize = 0;
    while i < cells.len()
        invariant
            i <= cells.len(),
            ops@ == head + cells_ops(initial_pen(mix), cells@.take(i as int), mix, reveal),
            pen == pen_after(initial_pen(mix), cells@.take(i as int), mix, reveal),
        decreases cells.len() - i,
    {
        assert(cells@.take(i + 1).drop_last() =~= cells@.take(i as int));
        assert(cells@.take(i + 1).last() == cells@[i as int]);
        pen = render_cell(&mut ops, pen, cells[i], mix, reveal);
        i += 1;
    }
    assert(cells@.take(i as int) =~= cells@);
    ops.push(TermOp::SetBackground(bg));
    ops.push(TermOp::Spaces(RIGHT_PAD));
    ops.push(TermOp::Flush);
    assert(ops@ =~= line_ops(cells@, mix, reveal, line, left));
    ops
}

/// The commands without those that set the background.
pub open spec fn without_background(ops: Seq<TermOp>) -> Seq<TermOp>
    decreases ops.len(),
{
    if ops.len() == 0 {
        ops
    } else if ops.last() is SetBackground {
        without_background(ops.drop_last())
    } else {
        without_background(ops.drop_last()).push(ops.last())
    }
}

/// The glyphs that the commands print, in order.
pub open spec fn glyphs(ops: Seq<TermOp>) -> Seq<char>
    decreases ops.len(),
{
    if ops.len() == 0 {
        Seq::empty()
    } else {
        match ops.last() {
            TermOp::Print(glyph) => glyphs(ops.drop_last()).push(glyph),
            _ => glyphs(ops.drop_last()),
        }
    }
}

/// Leaving the background commands out of two runs of commands, one after the
/// other, is leaving them out of each.
pub proof fn lemma_without_background_add(a: Seq<TermOp>, b: Seq<TermOp>)
    ensures
        without_background(a + b) == without_background(a) + without_background(b),
    decreases b.len(),
{
    if b.len() == 0 {
        assert(a + b =~= a);
        assert(without_background(a) + without_background(b) =~= without_background(a));
    } else {
        lemma_without_background_add(a, b.drop_last());
        assert((a + b).drop_last() =~= a + b.drop_last());
        assert((a + b).last() == b.last());
        if b.last() is SetBackground {
        } else {
            assert((without_background(a) + without_background(b.drop_last())).push(b.last())
                =~= without_background(a) + without_background(b.drop_last()).push(b.last()));
        }
    }
}

/// The glyphs of two runs of commands, one after the other, are those of the
/// first followed by those of the second.
pub proof fn lemma_glyphs_add(a: Seq<TermOp>, b: Seq<TermOp>)
    ensures
        glyphs(a + b) == glyphs(a) + glyphs(b),
    decreases b.len(),
{
    if b.len() == 0 {
        assert(a + b =~= a);
        assert(glyphs(a) + glyphs(b) =~= glyphs(a));
    } else {
        lemma_glyphs_add(a, b.drop_last());
        assert((a + b).drop_last() =~= a + b.drop_last());
        assert((a + b).last() == b.last());
        match b.last() {
            TermOp::Print(glyph) => {
                assert((glyphs(a) + glyphs(b.drop_last())).push(glyph) =~= glyphs(a) + glyphs(
                    b.drop_last(),
                ).push(glyph));
            },
            _ => {},
        }
    }
}

proof fn lemma_without_background_one(op: TermOp)
    ensures
        without_background(seq![op]) == if op is SetBackground {
            Seq::<TermOp>::empty()
        } else {
            seq![op]
        },
        without_background(Seq::<TermOp>::empty()) == Seq::<TermOp>::empty(),
{
    let one = seq![op];
    assert(one.drop_last() =~= Seq::<TermOp>::empty());
    assert(one.last() == op);
    assert(without_background(one.drop_last()) == Seq::<TermOp>::empty());
    if op is SetBackground {
    } else {
        assert(Seq::<TermOp>::empty().push(op) =~= one);
    }
}

proof fn lemma_glyphs_one(op: TermOp)
    ensures
        glyphs(seq![op]) == match op {
            TermOp::Print(glyph) => seq![glyph],
            _ => Seq::<char>::empty(),
        },
        glyphs(Seq::<TermOp>::empty()) == Seq::<char>::empty(),
{
    let one = seq![op];
    assert(one.drop_last() =~= Seq::<TermOp>::empty());
    assert(one.last() == op);
    assert(glyphs(one.drop_last()) == Seq::<char>::empty());
    match op {
        TermOp::Print(glyph) => {
            assert(Seq::<char>::empty().push(glyph) =~= seq![glyph]);
        },
        _ => {},
    }
}

/// The commands for one cell apart from the background: they depend on the
/// foreground, the concealment and the flashing in force, and on nothing else.
pub open spec fn cell_ops_but_background(pen: Pen, cell: Cell, reveal: bool) -> Seq<TermOp> {
    let next = cell_pen(cell, false, reveal);
    (foreground_change(pen, next) + conceal_change(pen, next) + flash_change(pen, next)).push(
        TermOp::Print(cell.glyph),
    )
}

proof fn lemma_cell_without_background(pen: Pen, cell: Cell, mix: bool, reveal: bool)
    ensures
        without_background(cell_ops(pen, cell, mix, reveal)) == cell_ops_but_background(
            pen,
            cell,
            reveal,
        ),
        glyphs(cell_ops(pen, cell, mix, reveal)) == seq![cell.glyph],
{
    let next = cell_pen(cell, mix, reveal);
    let plain = cell_pen(cell, false, reveal);
    let bg = background_change(pen, next);
    let fg = foreground_change(pen, next);
    let co = conceal_change(pen, next);
    let fl = flash_change(pen, next);
    let pr = seq![TermOp::Print(cell.glyph)];
    assert(fg == foreground_change(pen, plain));
    assert(co == conceal_change(pen, plain));
    assert(fl == flash_change(pen, plain));
    assert(cell_ops(pen, cell, mix, reveal) =~= bg + fg + co + fl + pr);
    lemma_without_background_one(TermOp::SetBackground(next.background));
    lemma_without_background_one(TermOp::SetForeground(next.foreground));
    lemma_without_background_one(TermOp::SetAttribute(Attribute::Hidden));
    lemma_without_background_one(TermOp::SetAttribute(Attribute::NoHidden));
    lemma_without_background_one(TermOp::SetAttribute(Attribute::SlowBlink));
    lemma_without_background_one(TermOp::SetAttribute(Attribute::NoBlink));
    lemma_without_background_one(TermOp::Print(cell.glyph));
    lemma_without_background_add(bg, fg);
    lemma_without_background_add(bg + fg, co);
    lemma_without_background_add(bg + fg + co, fl);
    lemma_without_background_add(bg + fg + co + fl, pr);
    assert(without_background(bg) =~= Seq::<TermOp>::empty());
    assert(without_background(bg + fg + co + fl + pr) =~= fg + co + fl + pr);
    assert(cell_ops_but_background(pen, cell, reveal) =~= fg + co + fl + pr);
    lemma_glyphs_one(TermOp::SetBackground(next.background));
    lemma_glyphs_one(TermOp::SetForeground(next.foreground));
    lemma_glyphs_one(TermOp::SetAttribute(Attribute::Hidden));
    lemma_glyphs_one(TermOp::SetAttribute(Attribute::NoHidden));
    lemma_glyphs_one(TermOp::SetAttribute(Attribute::SlowBlink));
    lemma_glyphs_one(TermOp::SetAttribute(Attribute::NoBlink));
    lemma_glyphs_one(TermOp::Print(cell.glyph));
    lemma_glyphs_add(bg, fg);
    lemma_glyphs_add(bg + fg, co);
    lemma_glyphs_add(bg + fg + co, fl);
    lemma_glyphs_add(bg + fg + co + fl, pr);
    assert(glyphs(bg + fg + co + fl + pr) =~= pr.map_values(|op: TermOp| cell.glyph));
    assert(pr.map_values(|op: TermOp| cell.glyph) =~= seq![cell.glyph]);
}

/// Two pens agree on everything but the background.
pub open spec fn same_but_background(a: Pen, b: Pen) -> bool {
    a.foreground == b.foreground && a.conceal == b.conceal && a.flash == b.flash
}

/// Mix mode changes the background of a cell that is not boxed, and nothing else:
/// not the other attributes of any cell, and not the background of a boxed one.
pub proof fn lemma_mix_changes_unboxed_background_only(cell: Cell, reveal: bool)
    ensures
        same_but_background(cell_pen(cell, true, reveal), cell_pen(cell, false, reveal)),
        cell.boxed ==> cell_pen(cell, true, reveal) == cell_pen(cell, false, reveal),
        !cell.boxed ==> cell_pen(cell, true, reveal).background == Color::Reset,
{
}

/// A run of cells drawn with mix mode on and with mix mode off gives the same
/// commands but for those that set the background, and prints the same glyphs:
/// those of the cells.
pub proof fn lemma_cells_mix(cells: Seq<Cell>, reveal: bool, on: Pen, off: Pen)
    requires
        same_but_background(on, off),
    ensures
        without_background(cells_ops(on, cells, true, reveal)) == without_background(
            cells_ops(off, cells, false, reveal),
        ),
        glyphs(cells_ops(on, cells, true, reveal)) == cells.map_values(|c: Cell| c.glyph),
        glyphs(cells_ops(off, cells, false, reveal)) == cells.map_values(|c: Cell| c.glyph),
    decreases cells.len(),
{
    let shown = cells.map_values(|c: Cell| c.glyph);
    if cells.len() == 0 {
        assert(shown =~= Seq::<char>::empty());
    } else {
        let before = cells.drop_last();
        let last = cells.last();
        lemma_cells_mix(before, reveal, on, off);
        let pen_on = pen_after(on, before, true, reveal);
        let pen_off = pen_after(off, before, false, reveal);
        assert(same_but_background(pen_on, pen_off));
        lemma_cell_without_background(pen_on, last, true, reveal);
        lemma_cell_without_background(pen_off, last, false, reveal);
        lemma_without_background_add(
            cells_ops(on, before, true, reveal),
            cell_ops(pen_on, last, true, reveal),
        );
        lemma_without_background_add(
            cells_ops(off, before, false, reveal),
            cell_ops(pen_off, last, false, reveal),
        );
        lemma_glyphs_add(cells_ops(on, before, true, reveal), cell_ops(pen_on, last, true, reveal));
        lemma_glyphs_add(
            cells_ops(off, before, false, reveal),
            cell_ops(pen_off, last, false, reveal),
        );
        assert(cell_ops_but_background(pen_on, last, reveal) == cell_ops_but_background(
            pen_off,
            last,
            reveal,
        ));
        assert(shown =~= before.map_values(|c: Cell| c.glyph) + seq![last.glyph]);
    }
}

/// A row drawn with mix mode on and with mix mode off gives the same commands but
/// for those that set the background, and prints the same glyphs.
pub proof fn lemma_line_mix(cells: Seq<Cell>, reveal: bool, line: u16, left: u16)
    ensures
        without_background(line_ops(cells, true, reveal, line, left)) == without_background(
            line_ops(cells, false, reveal, line, left),
        ),
        glyphs(line_ops(cells, true, reveal, line, left)) == cells.map_values(|c: Cell| c.glyph),
        glyphs(line_ops(cells, false, reveal, line, left)) == cells.map_values(|c: Cell| c.glyph),
{
    lemma_line_parts(cells, true, reveal, line, left);
    lemma_line_parts(cells, false, reveal, line, left);
    lemma_cells_mix(cells, reveal, initial_pen(true), initial_pen(false));
}

/// A row prints the glyphs of its cells and no others, in either mode.
pub proof fn lemma_line_glyphs(cells: Seq<Cell>, mix: bool, reveal: bool, line: u16, left: u16)
    ensures
        glyphs(line_ops(cells, mix, reveal, line, left)) == cells.map_values(|c: Cell| c.glyph),
        glyphs(line_ops(cells, mix, reveal, line, left)).len() == cells.len(),
{
    lemma_line_mix(cells, reveal, line, left);
}

proof fn lemma_line_parts(cells: Seq<Cell>, mix: bool, reveal: bool, line: u16, left: u16)
    ensures
        without_background(line_ops(cells, mix, reveal, line, left)) == seq![
            TermOp::MoveTo { col: 0, row: line },
            TermOp::SetForeground(term_color_spec(1)),
            TermOp::Spaces(left),
        ] + without_background(cells_ops(initial_pen(mix), cells, mix, reveal)) + seq![
            TermOp::Spaces(RIGHT_PAD),
            TermOp::Flush,
        ],
        glyphs(line_ops(cells, mix, reveal, line, left)) == glyphs(
            cells_ops(initial_pen(mix), cells, mix, reveal),
        ),
{
    let a = TermOp::MoveTo { col: 0, row: line };
    let b = TermOp::SetForeground(term_color_spec(1));
    let c = TermOp::SetBackground(default_bg_spec(mix));
    let d = TermOp::Spaces(left);
    let e = TermOp::Spaces(RIGHT_PAD);
    let f = TermOp::Flush;
    let mid = cells_ops(initial_pen(mix), cells, mix, reveal);
    assert(line_ops(cells, mix, reveal, line, left) =~= seq![a] + seq![b] + seq![c] + seq![d] + mid
        + seq![c] + seq![e] + seq![f]);
    lemma_without_background_one(a);
    lemma_without_background_one(b);
    lemma_without_background_one(c);
    lemma_without_background_one(d);
    lemma_without_background_one(e);
    lemma_without_background_one(f);
    lemma_without_background_add(seq![a], seq![b]);
    lemma_without_background_add(seq![a] + seq![b], seq![c]);
    lemma_without_background_add(seq![a] + seq![b] + seq![c], seq![d]);
    lemma_without_background_add(seq![a] + seq![b] + seq![c] + seq![d], mid);
    lemma_without_background_add(seq![a] + seq![b] + seq![c] + seq![d] + mid, seq![c]);
    lemma_without_background_add(seq![a] + seq![b] + seq![c] + seq![d] + mid + seq![c], seq![e]);
    lemma_without_background_add(
        seq![a] + seq![b] + seq![c] + seq![d] + mid + seq![c] + seq![e],
        seq![f],
    );
    assert(without_background(line_ops(cells, mix, reveal, line, left)) =~= seq![a, b, d]
        + without_background(mid) + seq![e, f]);
    lemma_glyphs_one(a);
    lemma_glyphs_one(b);
    lemma_glyphs_one(c);
    lemma_glyphs_one(d);
    lemma_glyphs_one(e);
    lemma_glyphs_one(f);
    lemma_glyphs_add(seq![a], seq![b]);
    lemma_glyphs_add(seq![a] + seq![b], seq![c]);
    lemma_glyphs_add(seq![a] + seq![b] + seq![c], seq![d]);
    lemma_glyphs_add(seq![a] + seq![b] + seq![c] + seq![d], mid);
    lemma_glyphs_add(seq![a] + seq![b] + seq![c] + seq![d] + mid, seq![c]);
    lemma_glyphs_add(seq![a] + seq![b] + seq![c] + seq![d] + mid + seq![c], seq![e]);
    lemma_glyphs_add(seq![a] + seq![b] + seq![c] + seq![d] + mid + seq![c] + seq![e], seq![f]);
    assert(glyphs(line_ops(cells, mix, reveal, line, left)) =~= glyphs(mid));
}

/// A glyph on the terminal, with the attributes it was printed with.
pub struct Printed {
    pub glyph: char,
    pub pen: Pen,
}

/// The attributes in force after one command.
pub open spec fn pen_after_op(pen: Pen, op: TermOp) -> Pen {
    match op {
        TermOp::SetForeground(color) => Pen { foreground: color, ..pen },
        TermOp::SetBackground(color) => Pen { background: color, ..pen },
        TermOp::SetAttribute(Attribute::Hidden) => Pen { conceal: true, ..pen },
        TermOp::SetAttribute(Attribute::NoHidden) => Pen { conceal: false, ..pen },
        TermOp::SetAttribute(Attribute::SlowBlink) => Pen { flash: true, ..pen },
        TermOp::SetAttribute(Attribute::NoBlink) => Pen { flash: false, ..pen },
        _ => pen,
    }
}

/// The attributes in force after a run of commands, with `pen` in force before it.
pub open spec fn pen_after_ops(pen: Pen, ops: Seq<TermOp>) -> Pen
    decreases ops.len(),
{
    if ops.len() == 0 {
        pen
    } else {
        pen_after_op(pen_after_ops(pen, ops.drop_last()), ops.last())
    }
}

/// What a run of commands prints glyph by glyph, with `pen` in force before it.
pub open spec fn printed(pen: Pen, ops: Seq<TermOp>) -> Seq<Printed>
    decreases ops.len(),
{
    if ops.len() == 0 {
        Seq::empty()
    } else {
        let before = ops.drop_last();
        match ops.last() {
            TermOp::Print(glyph) => printed(pen, before).push(
                Printed { glyph, pen: pen_after_ops(pen, before) },
            ),
            _ => printed(pen, before),
        }
    }
}

/// A command sets an attribute to the value it already has.
pub open spec fn is_idle(pen: Pen, op: TermOp) -> bool {
    match op {
        TermOp::SetForeground(_) | TermOp::SetBackground(_) | TermOp::SetAttribute(_) => pen_after_op(
            pen,
            op,
        ) == pen,
        _ => false,
    }
}

/// No command of the run sets an attribute to the value it has at that point.
pub open spec fn no_idle_ops(pen: Pen, ops: Seq<TermOp>) -> bool
    decreases ops.len(),
{
    if ops.len() == 0 {
        true
    } else {
        no_idle_ops(pen, ops.drop_last()) && !is_idle(
            pen_after_ops(pen, ops.drop_last()),
            ops.last(),
        )
    }
}

/// Two runs of commands, one after the other: the second starts with the
/// attributes that the first leaves in force.
pub proof fn lemma_printed_add(pen: Pen, a: Seq<TermOp>, b: Seq<TermOp>)
    ensures
        pen_after_ops(pen, a + b) == pen_after_ops(pen_after_ops(pen, a), b),
        printed(pen, a + b) == printed(pen, a) + printed(pen_after_ops(pen, a), b),
        no_idle_ops(pen, a + b) == (no_idle_ops(pen, a) && no_idle_ops(pen_after_ops(pen, a), b)),
    decreases b.len(),
{
    let mid = pen_after_ops(pen, a);
    if b.len() == 0 {
        assert(a + b =~= a);
        assert(printed(pen, a) + printed(mid, b) =~= printed(pen, a));
    } else {
        lemma_printed_add(pen, a, b.drop_last());
        assert((a + b).drop_last() =~= a + b.drop_last());
        assert((a + b).last() == b.last());
        match b.last() {
            TermOp::Print(glyph) => {
                let p = Printed { glyph, pen: pen_after_ops(mid, b.drop_last()) };
                assert((printed(pen, a) + printed(mid, b.drop_last())).push(p) =~= printed(pen, a)
                    + printed(mid, b.drop_last()).push(p));
            },
            _ => {},
        }
    }
}

proof fn lemma_printed_one(pen: Pen, op: TermOp)
    ensures
        pen_after_ops(pen, seq![op]) == pen_after_op(pen, op),
        printed(pen, seq![op]) == match op {
            TermOp::Print(glyph) => seq![Printed { glyph, pen }],
            _ => Seq::<Printed>::empty(),
        },
        no_idle_ops(pen, seq![op]) == !is_idle(pen, op),
        pen_after_ops(pen, Seq::<TermOp>::empty()) == pen,
        printed(pen, Seq::<TermOp>::empty()) == Seq::<Printed>::empty(),
        no_idle_ops(pen, Seq::<TermOp>::empty()),
{
    let one = seq![op];
    assert(one.drop_last() =~= Seq::<TermOp>::empty());
    assert(one.last() == op);
    assert(pen_after_ops(pen, one.drop_last()) == pen);
    assert(printed(pen, one.drop_last()) == Seq::<Printed>::empty());
    assert(no_idle_ops(pen, one.drop_last()));
    match op {
        TermOp::Print(glyph) => {
            assert(Seq::<Printed>::empty().push(Printed { glyph, pen }) =~= seq![
                Printed { glyph, pen },
            ]);
        },
        _ => {},
    }
}

/// The commands for one cell print its glyph with its own attributes, whatever was
/// in force before, and leave these in force; none of them is idle.
pub proof fn lemma_cell_printed(pen: Pen, cell: Cell, mix: bool, reveal: bool)
    ensures
        printed(pen, cell_ops(pen, cell, mix, reveal)) == seq![
            Printed { glyph: cell.glyph, pen: cell_pen(cell, mix, reveal) },
        ],
        pen_after_ops(pen, cell_ops(pen, cell, mix, reveal)) == cell_pen(cell, mix, reveal),
        no_idle_ops(pen, cell_ops(pen, cell, mix, reveal)),
{
    let next = cell_pen(cell, mix, reveal);
    let bg = background_change(pen, next);
    let fg = foreground_change(pen, next);
    let co = conceal_change(pen, next);
    let fl = flash_change(pen, next);
    let pr = seq![TermOp::Print(cell.glyph)];
    assert(cell_ops(pen, cell, mix, reveal) =~= bg + fg + co + fl + pr);
    let with_bg = Pen { background: next.background, ..pen };
    let with_fg = Pen { foreground: next.foreground, ..with_bg };
    let with_conceal = Pen { conceal: next.conceal, ..with_fg };
    lemma_printed_one(pen, TermOp::SetBackground(next.background));
    assert(pen_after_ops(pen, bg) == with_bg && printed(pen, bg) == Seq::<Printed>::empty()
        && no_idle_ops(pen, bg));
    lemma_printed_one(with_bg, TermOp::SetForeground(next.foreground));
    assert(pen_after_ops(with_bg, fg) == with_fg && printed(with_bg, fg) == Seq::<Printed>::empty()
        && no_idle_ops(with_bg, fg));
    lemma_printed_one(with_fg, TermOp::SetAttribute(Attribute::Hidden));
    lemma_printed_one(with_fg, TermOp::SetAttribute(Attribute::NoHidden));
    assert(pen_after_ops(with_fg, co) == with_conceal && printed(with_fg, co) == Seq::<Printed>::empty()
        && no_idle_ops(with_fg, co));
    lemma_printed_one(with_conceal, TermOp::SetAttribute(Attribute::SlowBlink));
    lemma_printed_one(with_conceal, TermOp::SetAttribute(Attribute::NoBlink));
    assert(pen_after_ops(with_conceal, fl) == next && printed(with_conceal, fl) == Seq::<Printed>::empty()
        && no_idle_ops(with_conceal, fl));
    lemma_printed_one(next, TermOp::Print(cell.glyph));
    lemma_printed_add(pen, bg, fg);
    lemma_printed_add(pen, bg + fg, co);
    lemma_printed_add(pen, bg + fg + co, fl);
    lemma_printed_add(pen, bg + fg + co + fl, pr);
    assert(printed(pen, bg + fg + co + fl + pr) =~= seq![Printed { glyph: cell.glyph, pen: next }]);
}

/// A run of cells as the terminal shows it: each glyph with the attributes of its
/// own cell.
pub open spec fn cells_printed(cells: Seq<Cell>, mix: bool, reveal: bool) -> Seq<Printed> {
    Seq::new(
        cells.len(),
        |i: int| Printed { glyph: cells[i].glyph, pen: cell_pen(cells[i], mix, reveal) },
    )
}

/// The commands for a run of cells print every cell's glyph with the cell's own
/// attributes, whatever attributes were in force before, and hold no command that
/// sets an attribute to the value it has.
pub proof fn lemma_cells_printed(pen: Pen, cells: Seq<Cell>, mix: bool, reveal: bool)
    ensures
        printed(pen, cells_ops(pen, cells, mix, reveal)) == cells_printed(cells, mix, reveal),
        pen_after_ops(pen, cells_ops(pen, cells, mix, reveal)) == pen_after(pen, cells, mix, reveal),
        no_idle_ops(pen, cells_ops(pen, cells, mix, reveal)),
    decreases cells.len(),
{
    if cells.len() == 0 {
        assert(cells_printed(cells, mix, reveal) =~= Seq::<Printed>::empty());
    } else {
        let before = cells.drop_last();
        let mid = pen_after(pen, before, mix, reveal);
        lemma_cells_printed(pen, before, mix, reveal);
        lemma_cell_printed(mid, cells.last(), mix, reveal);
        lemma_printed_add(
            pen,
            cells_ops(pen, before, mix, reveal),
            cell_ops(mid, cells.last(), mix, reveal),
        );
        assert(cells_printed(cells, mix, reveal) =~= cells_printed(before, mix, reveal) + seq![
            Printed { glyph: cells.last().glyph, pen: cell_pen(cells.last(), mix, reveal) },
        ]);
    }
}

} // verus!
