//! The alignment-grid subsystem: a two-pass measure/bail-out/render
//! process over the rows and columns of math content with alignment
//! markers.  Collect flattens the content into rows of cells, Measure
//! renders every cell and tracks column widths, aborting as soon as the
//! grid's total width would exceed the configured maximum, and Render
//! emits padded, vertically aligned output.  A failed attempt yields
//! nothing and the caller falls back to plain sequential math conversion.

use vstd::prelude::*;
use crate::attr::attrs_of;
use crate::doc::{Doc, GDoc, gcat, gtext, gnest, gspaces, satadd, srender, spaces};
use crate::mode::{AlignMode, Context};
use crate::printer::{PrettyPrinter, gtrivia, trivia};
use crate::strutil::{has_nl, spec_lines, str_has_nl, str_split_lines};
use crate::syntax::{
    SyntaxTree, NodeData, SyntaxKind, tree_wf, spec_is_expr_kind, is_expr_kind,
};
use crate::text::cv_space_untyped;
use crate::width::display_width_of;
use crate::convert::{cv_ok, cs_of, cv_expr, cv_math, cv_math_seq};

verus! {

/// A raw row before measuring: the node indices of each cell, or a
/// standalone comment node.
pub ghost enum GRawRow {
    Cells(Seq<Seq<usize>>),
    Comment(int),
}

/// A measured cell: empty, one line with its padded width, or several
/// lines each with its padded width.
pub ghost enum GCell {
    Empty,
    Single(Seq<char>, nat),
    Multi(Seq<(Seq<char>, nat)>),
}

/// A measured row: cells, or a standalone comment's text.
pub ghost enum GRow {
    Cells(Seq<GCell>),
    Comment(Seq<char>),
}

/// Should the grid collector descend into this child instead of treating
/// it as one opaque cell element?
pub open spec fn grid_descend(p: PrettyPrinter, t: Seq<NodeData>, c: int) -> bool {
    (t[c].kind == SyntaxKind::Math || t[c].kind == SyntaxKind::MathDelimited) && attrs_of(
        p.attrs.attrs@,
        c,
    ).align_marker
}

/// The flattened grid-relevant descendants of node `i`, from child `k` on.
pub open spec fn flat_children(p: PrettyPrinter, t: Seq<NodeData>, i: int, k: int) -> Seq<usize>
    decreases t.len() - i, cs_of(t, i).len() - k,
{
    if !cv_ok(t, i) || k < 0 || k >= cs_of(t, i).len() {
        Seq::empty()
    } else {
        let c = cs_of(t, i)[k] as int;
        (if grid_descend(p, t, c) {
            flat_children(p, t, c, 0)
        } else {
            seq![cs_of(t, i)[k]]
        }) + flat_children(p, t, i, k + 1)
    }
}

/// Every flattened element lies strictly inside the subtree: above `i`,
/// inside the arena.
pub proof fn lemma_flat_bounds(p: PrettyPrinter, t: Seq<NodeData>, i: int, k: int)
    requires
        tree_wf(t),
    ensures
        forall|q: int|
            0 <= q < flat_children(p, t, i, k).len() ==> i < #[trigger] flat_children(
                p,
                t,
                i,
                k,
            )[q] < t.len(),
    decreases t.len() - i, cs_of(t, i).len() - k,
{
    if !cv_ok(t, i) || k < 0 || k >= cs_of(t, i).len() {
    } else {
        let c = cs_of(t, i)[k] as int;
        lemma_flat_bounds(p, t, i, k + 1);
        if grid_descend(p, t, c) {
            lemma_flat_bounds(p, t, c, 0);
        }
        let first = if grid_descend(p, t, c) {
            flat_children(p, t, c, 0)
        } else {
            seq![cs_of(t, i)[k]]
        };
        let rest = flat_children(p, t, i, k + 1);
        assert(flat_children(p, t, i, k) == first + rest);
        assert forall|q: int| 0 <= q < (first + rest).len() implies i < #[trigger] (first
            + rest)[q] < t.len() by {
            if q < first.len() {
                assert((first + rest)[q] == first[q]);
            } else {
                assert((first + rest)[q] == rest[q - first.len()]);
            }
        }
    }
}

/// Split the flattened nodes into lines at line-break tokens; the fold
/// carries the current line and the finished lines.
pub open spec fn split_rows(
    t: Seq<NodeData>,
    flat: Seq<usize>,
    k: int,
    cur: Seq<usize>,
    acc: Seq<Seq<usize>>,
) -> Seq<Seq<usize>>
    decreases flat.len() - k,
{
    if k < 0 || k >= flat.len() {
        acc.push(cur)
    } else if 0 <= flat[k] < t.len() && t[flat[k] as int].kind == SyntaxKind::Linebreak {
        split_rows(t, flat, k + 1, Seq::empty(), acc.push(cur))
    } else {
        split_rows(t, flat, k + 1, cur.push(flat[k]), acc)
    }
}

/// A cell with its trailing whitespace nodes removed.
pub open spec fn trim_cell(t: Seq<NodeData>, cell: Seq<usize>) -> Seq<usize>
    decreases cell.len(),
{
    if cell.len() > 0 && 0 <= cell.last() < t.len() && t[cell.last() as int].kind
        == SyntaxKind::Space {
        trim_cell(t, cell.drop_last())
    } else {
        cell
    }
}

/// One line turned into rows: split at alignment markers into cells; a
/// leading standalone comment becomes a comment row of its own.
pub open spec fn line_rows(
    t: Seq<NodeData>,
    line: Seq<usize>,
    k: int,
    cells: Seq<Seq<usize>>,
    cur: Seq<usize>,
    acc: Seq<GRawRow>,
) -> Seq<GRawRow>
    decreases line.len() - k,
{
    if k < 0 || k >= line.len() {
        acc.push(GRawRow::Cells(cells.push(trim_cell(t, cur))))
    } else {
        let c = line[k] as int;
        let kd = if 0 <= c < t.len() {
            t[c].kind
        } else {
            SyntaxKind::Other
        };
        if kd == SyntaxKind::MathAlignPoint {
            line_rows(t, line, k + 1, cells.push(trim_cell(t, cur)), Seq::empty(), acc)
        } else if kd == SyntaxKind::Space && cur.len() == 0 {
            line_rows(t, line, k + 1, cells, cur, acc)
        } else if kd == SyntaxKind::LineComment && cells.len() == 0 && cur.len() == 0 {
            line_rows(t, line, k + 1, cells, cur, acc.push(GRawRow::Comment(c)))
        } else {
            line_rows(t, line, k + 1, cells, cur.push(line[k]), acc)
        }
    }
}

/// All lines turned into rows, in order.
pub open spec fn collect_rows(
    t: Seq<NodeData>,
    lines: Seq<Seq<usize>>,
    li: int,
    acc: Seq<GRawRow>,
) -> Seq<GRawRow>
    decreases lines.len() - li,
{
    if li < 0 || li >= lines.len() {
        acc
    } else {
        collect_rows(t, lines, li + 1, line_rows(t, lines[li], 0, Seq::empty(), Seq::empty(), acc))
    }
}

/// The collect phase: the raw rows of math node `i`, and whether the final
/// line ended in a line continuation.
pub open spec fn spec_collect_aligned(p: PrettyPrinter, t: Seq<NodeData>, i: int) -> (
    Seq<GRawRow>,
    bool,
) {
    let flat = flat_children(p, t, i, 0);
    let lines0 = split_rows(t, flat, 0, Seq::empty(), Seq::empty());
    let trailing = lines0.len() > 0 && lines0.last().len() == 0;
    let lines = if trailing {
        lines0.drop_last()
    } else {
        lines0
    };
    (collect_rows(t, lines, 0, Seq::empty()), trailing)
}

/// The number of cells of a raw row; a comment row has none.
pub open spec fn graw_row_len(r: GRawRow) -> nat {
    match r {
        GRawRow::Cells(cells) => cells.len(),
        GRawRow::Comment(_) => 0,
    }
}

/// The column count: the largest cell count of the rows from `k` on.
pub open spec fn rows_max_len(rows: Seq<GRawRow>, k: int) -> nat
    decreases rows.len() - k,
{
    if k < 0 || k >= rows.len() {
        0
    } else {
        let rest = rows_max_len(rows, k + 1);
        if graw_row_len(rows[k]) > rest {
            graw_row_len(rows[k])
        } else {
            rest
        }
    }
}

/// The width of this cell's last line.
pub open spec fn gcell_width(c: GCell) -> nat {
    match c {
        GCell::Empty => 0,
        GCell::Single(_, w) => w,
        GCell::Multi(lines) => if lines.len() > 0 {
            lines.last().1
        } else {
            0
        },
    }
}

/// The largest line width of this cell, from line `k` on.
pub open spec fn gcell_lines_max(lines: Seq<(Seq<char>, nat)>, k: int) -> nat
    decreases lines.len() - k,
{
    if k < 0 || k >= lines.len() {
        0
    } else {
        let rest = gcell_lines_max(lines, k + 1);
        if lines[k].1 > rest {
            lines[k].1
        } else {
            rest
        }
    }
}

/// The largest line width of this cell.
pub open spec fn gcell_max_width(c: GCell) -> nat {
    match c {
        GCell::Empty => 0,
        GCell::Single(_, w) => w,
        GCell::Multi(lines) => gcell_lines_max(lines, 0),
    }
}

/// The width of one rendered cell line including its positional padding:
/// one column at the grid's edges, two between columns.
pub open spec fn measure_width(line: Seq<char>, j: int, col_num: nat) -> nat {
    if j == 0 || j + 1 == col_num {
        satadd(display_width_of(line), 1)
    } else {
        satadd(display_width_of(line), 2)
    }
}

/// The sequential document of the math nodes of one cell, from `k` on.
pub open spec fn cv_math_children(
    p: PrettyPrinter,
    t: Seq<NodeData>,
    ctx: Context,
    anchor: int,
    cell: Seq<usize>,
    k: int,
    acc: GDoc,
) -> GDoc
    decreases t.len() - anchor, 6int, cell.len() - k, 0int,
{
    if !(tree_wf(t) && 0 <= anchor < t.len()) || k < 0 || k >= cell.len() || !(forall|q: int|
        0 <= q < cell.len() ==> anchor < #[trigger] cell[q] < t.len()) {
        acc
    } else {
        let c = cell[k] as int;
        let piece = if spec_is_expr_kind(t[c].kind) {
            cv_expr(p, t, ctx, c)
        } else if t[c].kind == SyntaxKind::Space {
            cv_space_untyped(p, t, ctx, c)
        } else {
            gtrivia(t, c)
        };
        cv_math_children(p, t, ctx, anchor, cell, k + 1, gcat(acc, piece))
    }
}

/// The rendered text of one cell: its document rendered against the
/// maximum width from column zero, with one extra line when the cell ends
/// in a line comment.
#[verifier::opaque]
pub open spec fn cell_buf(
    p: PrettyPrinter,
    t: Seq<NodeData>,
    ctx: Context,
    anchor: int,
    cell: Seq<usize>,
) -> Seq<char>
    decreases t.len() - anchor, 7int, 0int, 0int,
{
    let doc = cv_math_children(p, t, ctx, anchor, cell, 0, GDoc::Nil);
    let buf = srender(doc, false, 0, p.config.max_width as nat, 0).0;
    if cell.len() > 0 && 0 <= cell.last() < t.len() && t[cell.last() as int].kind
        == SyntaxKind::LineComment {
        buf + seq!['\n', ' ']
    } else {
        buf
    }
}

/// The classification of one rendered cell at column `j`.
pub open spec fn classify_cell(buf: Seq<char>, j: int, col_num: nat) -> GCell {
    if buf.len() == 0 {
        GCell::Empty
    } else if has_nl(buf) {
        GCell::Multi(spec_lines(buf).map_values(|l: Seq<char>| (l, measure_width(l, j, col_num))))
    } else {
        GCell::Single(buf, measure_width(buf, j, col_num))
    }
}

/// Measure the cells of one row from `ci` on, updating column widths and
/// the running grid width, aborting once the total exceeds the maximum.
pub open spec fn measure_cells(
    p: PrettyPrinter,
    t: Seq<NodeData>,
    ctx: Context,
    anchor: int,
    cells: Seq<Seq<usize>>,
    col_num: nat,
    ci: int,
    row: Seq<GCell>,
    col_widths: Seq<nat>,
    grid_width: nat,
) -> Option<(Seq<GCell>, Seq<nat>, nat)>
    decreases t.len() - anchor, 8int, cells.len() - ci, 0int,
{
    if ci < 0 || ci >= cells.len() {
        Option::Some((row, col_widths, grid_width))
    } else {
        let buf = cell_buf(p, t, ctx, anchor, cells[ci]);
        let cell = classify_cell(buf, ci, col_num);
        let w = gcell_width(cell);
        if ci >= col_widths.len() {
            Option::None
        } else if w > col_widths[ci] {
            let gw = satadd(grid_width, (w - col_widths[ci]) as nat);
            if gw > p.config.max_width as nat {
                Option::None
            } else {
                measure_cells(
                    p,
                    t,
                    ctx,
                    anchor,
                    cells,
                    col_num,
                    ci + 1,
                    row.push(cell),
                    col_widths.update(ci, w),
                    gw,
                )
            }
        } else {
            measure_cells(
                p,
                t,
                ctx,
                anchor,
                cells,
                col_num,
                ci + 1,
                row.push(cell),
                col_widths,
                grid_width,
            )
        }
    }
}

/// The measured cell of column `ci`.
pub open spec fn cell_at(
    p: PrettyPrinter,
    t: Seq<NodeData>,
    ctx: Context,
    anchor: int,
    cells: Seq<Seq<usize>>,
    col_num: nat,
    ci: int,
) -> GCell {
    classify_cell(cell_buf(p, t, ctx, anchor, cells[ci]), ci, col_num)
}

/// One unfolding step of `measure_cells`, for the measure loop.
pub proof fn lemma_measure_cells_step(
    p: PrettyPrinter,
    t: Seq<NodeData>,
    ctx: Context,
    anchor: int,
    cells: Seq<Seq<usize>>,
    col_num: nat,
    ci: int,
    row: Seq<GCell>,
    widths: Seq<nat>,
    gw: nat,
)
    requires
        0 <= ci < cells.len(),
        ci < widths.len(),
    ensures
        gcell_width(cell_at(p, t, ctx, anchor, cells, col_num, ci)) > widths[ci] && satadd(
            gw,
            (gcell_width(cell_at(p, t, ctx, anchor, cells, col_num, ci)) - widths[ci]) as nat,
        ) > p.config.max_width as nat ==> measure_cells(
            p,
            t,
            ctx,
            anchor,
            cells,
            col_num,
            ci,
            row,
            widths,
            gw,
        ) is None,
        gcell_width(cell_at(p, t, ctx, anchor, cells, col_num, ci)) > widths[ci] && satadd(
            gw,
            (gcell_width(cell_at(p, t, ctx, anchor, cells, col_num, ci)) - widths[ci]) as nat,
        ) <= p.config.max_width as nat ==> measure_cells(
            p,
            t,
            ctx,
            anchor,
            cells,
            col_num,
            ci,
            row,
            widths,
            gw,
        ) == measure_cells(
            p,
            t,
            ctx,
            anchor,
            cells,
            col_num,
            ci + 1,
            row.push(cell_at(p, t, ctx, anchor, cells, col_num, ci)),
            widths.update(ci, gcell_width(cell_at(p, t, ctx, anchor, cells, col_num, ci))),
            satadd(
                gw,
                (gcell_width(cell_at(p, t, ctx, anchor, cells, col_num, ci)) - widths[ci]) as nat,
            ),
        ),
        gcell_width(cell_at(p, t, ctx, anchor, cells, col_num, ci)) <= widths[ci]
            ==> measure_cells(p, t, ctx, anchor, cells, col_num, ci, row, widths, gw)
            == measure_cells(
            p,
            t,
            ctx,
            anchor,
            cells,
            col_num,
            ci + 1,
            row.push(cell_at(p, t, ctx, anchor, cells, col_num, ci)),
            widths,
            gw,
        ),
{
    reveal_with_fuel(measure_cells, 2);
    reveal(cell_buf);
    let cell = classify_cell(cell_buf(p, t, ctx, anchor, cells[ci]), ci, col_num);
    assert(cell == cell_at(p, t, ctx, anchor, cells, col_num, ci));
    let w = gcell_width(cell);
    if w > widths[ci] {
        if satadd(gw, (w - widths[ci]) as nat) > p.config.max_width as nat {
            assert(measure_cells(p, t, ctx, anchor, cells, col_num, ci, row, widths, gw) is None);
        } else {
            assert(measure_cells(p, t, ctx, anchor, cells, col_num, ci, row, widths, gw)
                == measure_cells(
                p,
                t,
                ctx,
                anchor,
                cells,
                col_num,
                ci + 1,
                row.push(cell),
                widths.update(ci, w),
                satadd(gw, (w - widths[ci]) as nat),
            ));
        }
    } else {
        assert(measure_cells(p, t, ctx, anchor, cells, col_num, ci, row, widths, gw)
            == measure_cells(
            p,
            t,
            ctx,
            anchor,
            cells,
            col_num,
            ci + 1,
            row.push(cell),
            widths,
            gw,
        ));
    }
}

/// Measure the rows from `ri` on; a comment row passes through unmeasured.
pub open spec fn measure_rows(
    p: PrettyPrinter,
    t: Seq<NodeData>,
    ctx: Context,
    anchor: int,
    rows: Seq<GRawRow>,
    col_num: nat,
    ri: int,
    acc: Seq<GRow>,
    col_widths: Seq<nat>,
    grid_width: nat,
) -> Option<(Seq<GRow>, Seq<nat>, nat)>
    decreases t.len() - anchor, 9int, rows.len() - ri, 0int,
{
    if ri < 0 || ri >= rows.len() {
        Option::Some((acc, col_widths, grid_width))
    } else {
        match rows[ri] {
            GRawRow::Comment(c) => {
                let text = if 0 <= c < t.len() {
                    t[c].text@
                } else {
                    Seq::empty()
                };
                measure_rows(
                    p,
                    t,
                    ctx,
                    anchor,
                    rows,
                    col_num,
                    ri + 1,
                    acc.push(GRow::Comment(text)),
                    col_widths,
                    grid_width,
                )
            },
            GRawRow::Cells(cells) => match measure_cells(
                p,
                t,
                ctx,
                anchor,
                cells,
                col_num,
                0,
                Seq::empty(),
                col_widths,
                grid_width,
            ) {
                Option::Some(r) => measure_rows(
                    p,
                    t,
                    ctx,
                    anchor,
                    rows,
                    col_num,
                    ri + 1,
                    acc.push(GRow::Cells(r.0)),
                    r.1,
                    r.2,
                ),
                Option::None => Option::None,
            },
        }
    }
}

/// The measure phase over raw rows: the measured rows and the final
/// column widths, or nothing once any prefix of the grid would be too
/// wide.  No partial grid is ever returned.
pub open spec fn cv_render_aligned(
    p: PrettyPrinter,
    t: Seq<NodeData>,
    ctx: Context,
    anchor: int,
    rows: Seq<GRawRow>,
) -> Option<(Seq<GRow>, Seq<nat>)>
    decreases t.len() - anchor, 10int, 0int, 0int,
{
    let col_num = rows_max_len(rows, 0);
    if col_num > p.config.max_width as nat {
        Option::None
    } else {
        match measure_rows(
            p,
            t,
            ctx,
            anchor,
            rows,
            col_num,
            0,
            Seq::empty(),
            Seq::new(col_num, |x: int| 0nat),
            col_num,
        ) {
            Option::Some(r) => Option::Some((r.0, r.1)),
            Option::None => Option::None,
        }
    }
}

/// Subtraction on widths, never below zero.
pub open spec fn satsub(a: nat, b: nat) -> nat {
    if a >= b {
        (a - b) as nat
    } else {
        0
    }
}

/// The sum of the first `k` column widths.
pub open spec fn col_sums(ws: Seq<nat>, k: int) -> nat
    decreases k,
{
    if k <= 0 || ws.len() == 0 {
        0
    } else if k > ws.len() {
        col_sums(ws, ws.len() as int)
    } else {
        satadd(col_sums(ws, k - 1), ws[k - 1])
    }
}

/// The lines of a multi-line cell joined by mandatory breaks.
pub open spec fn gmulti_lines(lines: Seq<(Seq<char>, nat)>, k: int) -> GDoc
    decreases k,
{
    if k <= 0 || lines.len() == 0 {
        GDoc::Nil
    } else if k == 1 {
        gtext(lines[0].0)
    } else if k > lines.len() {
        gmulti_lines(lines, lines.len() as int)
    } else {
        gcat(gcat(gmulti_lines(lines, k - 1), GDoc::Hardline), gtext(lines[k - 1].0))
    }
}

/// One padded cell: aligned left or right within its column's width; the
/// last cell of a row is never padded on the right; the continuation
/// lines of a multi-line cell are indented under their column.
pub open spec fn print_cell(
    cell: GCell,
    j: int,
    col_widths: Seq<nat>,
    num_cols: nat,
    is_last_cell: bool,
) -> GDoc {
    let left_aligned = (j % 2 == 1) || num_cols == 1;
    let col_width = if 0 <= j < col_widths.len() {
        col_widths[j]
    } else {
        0
    };
    match cell {
        GCell::Empty => if left_aligned && is_last_cell {
            GDoc::Nil
        } else {
            gspaces(col_width)
        },
        GCell::Single(text, w) => if left_aligned {
            if is_last_cell {
                gtext(text)
            } else {
                gcat(gtext(text), gspaces(satsub(col_width, w)))
            }
        } else {
            gcat(gspaces(satsub(col_width, w)), gtext(text))
        },
        GCell::Multi(lines) => {
            let cell_width = gcell_lines_max(lines, 0);
            let padding_left = if left_aligned {
                0
            } else {
                satsub(col_width, cell_width)
            };
            let indent0 = satadd(satadd(col_sums(col_widths, j), j as nat), padding_left);
            let indent = if j > 0 {
                satadd(indent0, 1)
            } else {
                indent0
            };
            let last_w = if lines.len() > 0 {
                lines.last().1
            } else {
                0
            };
            let trailing = if !is_last_cell {
                satsub(satsub(col_width, padding_left), last_w)
            } else {
                0
            };
            gnest(
                indent,
                gcat(
                    gcat(gspaces(padding_left), gmulti_lines(lines, lines.len() as int)),
                    gspaces(trailing),
                ),
            )
        },
    }
}

/// Is this cell empty?
pub open spec fn gcell_is_empty(c: GCell) -> bool {
    c is Empty
}

/// The cells of one row from `j` on: separators with spaces next to
/// non-empty neighbours, then each padded cell.
pub open spec fn print_row_cells(
    cells: Seq<GCell>,
    j: int,
    col_widths: Seq<nat>,
    num_cols: nat,
    prev_empty: bool,
    acc: GDoc,
) -> (GDoc, bool)
    decreases cells.len() - j,
{
    if j < 0 || j >= cells.len() {
        (acc, prev_empty)
    } else {
        let cur_empty = gcell_is_empty(cells[j]);
        let is_last = j + 1 == cells.len();
        let cell_doc = print_cell(cells[j], j, col_widths, num_cols, is_last);
        let sep = if j > 0 {
            let s0 = if !prev_empty {
                GDoc::Space
            } else {
                GDoc::Nil
            };
            let s1 = gcat(s0, gtext("&"@));
            if !cur_empty {
                gcat(s1, GDoc::Space)
            } else {
                s1
            }
        } else {
            GDoc::Nil
        };
        print_row_cells(
            cells,
            j + 1,
            col_widths,
            num_cols,
            cur_empty,
            gcat(acc, gcat(sep, cell_doc)),
        )
    }
}

/// The measured rows from `ri` on: comment rows verbatim on their own
/// lines; cell rows padded, separated by aligned markers, ended by a line
/// continuation except on the last row unless the source asked for one.
pub open spec fn print_rows(
    rows: Seq<GRow>,
    col_widths: Seq<nat>,
    num_cols: nat,
    add_trailing: bool,
    ri: int,
    acc: GDoc,
) -> GDoc
    decreases rows.len() - ri,
{
    if ri < 0 || ri >= rows.len() {
        acc
    } else {
        let is_last_row = ri + 1 == rows.len();
        let row_doc = match rows[ri] {
            GRow::Comment(text) => gcat(gtext(text), GDoc::Hardline),
            GRow::Cells(cells) => {
                let r = print_row_cells(cells, 0, col_widths, num_cols, false, GDoc::Nil);
                let needs_backslash = !is_last_row || add_trailing;
                let d1 = if needs_backslash {
                    if cells.len() == 1 && r.1 {
                        gcat(r.0, gtext("\\"@))
                    } else {
                        gcat(r.0, gtext(" \\"@))
                    }
                } else {
                    r.0
                };
                if !is_last_row {
                    gcat(d1, GDoc::Hardline)
                } else {
                    d1
                }
            },
        };
        print_rows(rows, col_widths, num_cols, add_trailing, ri + 1, gcat(acc, row_doc))
    }
}

/// The render phase: the whole grid as one document.
pub open spec fn spec_print_aligned(
    rows: Seq<GRow>,
    col_widths: Seq<nat>,
    add_trailing: bool,
) -> GDoc {
    print_rows(rows, col_widths, col_widths.len() as nat, add_trailing, 0, GDoc::Nil)
}

/// The grid attempt: nothing when alignment is off here or the node is
/// not eligible; otherwise the collected rows measured and, when they
/// fit, printed.
pub open spec fn cv_try_aligned(p: PrettyPrinter, t: Seq<NodeData>, ctx: Context, i: int) -> Option<
    GDoc,
>
    decreases t.len() - i, 11int, 0int, 0int,
{
    if !cv_ok(t, i) {
        Option::None
    } else if ctx.align_mode == AlignMode::Never || !(attrs_of(p.attrs.attrs@, i).align_eligible
        && attrs_of(p.attrs.attrs@, i).align_marker) {
        Option::None
    } else {
        let ctx2 = Context { align_mode: AlignMode::Outer, ..ctx };
        let collected = spec_collect_aligned(p, t, i);
        match cv_render_aligned(p, t, ctx2, i, collected.0) {
            Option::Some(g) => Option::Some(spec_print_aligned(g.0, g.1, collected.1)),
            Option::None => Option::None,
        }
    }
}

/// A raw row before rendering: node indices split into cells, or a
/// standalone comment node.
#[derive(Debug)]
pub enum RawRow {
    Cells(Vec<Vec<usize>>),
    Comment(usize),
}

/// The ghost value of a raw row.
pub open spec fn rawrow_view(r: RawRow) -> GRawRow {
    match r {
        RawRow::Cells(cells) => GRawRow::Cells(cells_view(cells@)),
        RawRow::Comment(c) => GRawRow::Comment(c as int),
    }
}

/// Every index of a raw row points strictly inside the subtree of `i`.
pub open spec fn rawrow_ok(t: Seq<NodeData>, i: int, r: RawRow) -> bool {
    match r {
        RawRow::Cells(cells) => forall|ci: int, q: int|
            0 <= ci < cells@.len() && 0 <= q < cells@[ci]@.len() ==> i < (#[trigger] cells@[
            ci]@[q]) < t.len(),
        RawRow::Comment(c) => i < c < t.len(),
    }
}

impl RawRow {
    /// The number of cells of this row; a comment row has none.
    pub fn len(&self) -> (r: usize)
        ensures
            r as nat == graw_row_len(rawrow_view(*self)),
    {
        match self {
            RawRow::Cells(items) => items.len(),
            RawRow::Comment(_) => 0,
        }
    }
}

/// The collected raw rows and the trailing-continuation flag.
#[derive(Debug)]
pub struct RawAligned {
    pub rows: Vec<RawRow>,
    pub has_trailing_backslash: bool,
}

/// A measured cell: its rendered content and computed widths.
#[derive(Debug)]
pub enum Cell {
    Empty,
    SingleLine(String, usize),
    MultiLine(Vec<(String, usize)>),
}

/// The ghost value of a measured cell.
pub open spec fn cell_view(c: Cell) -> GCell {
    match c {
        Cell::Empty => GCell::Empty,
        Cell::SingleLine(s, w) => GCell::Single(s@, w as nat),
        Cell::MultiLine(lines) => GCell::Multi(
            lines@.map_values(|pr: (String, usize)| (pr.0@, pr.1 as nat)),
        ),
    }
}

impl Cell {
    /// The maximum display width of this cell.
    pub fn max_width(&self) -> (r: usize)
        ensures
            r as nat == gcell_max_width(cell_view(*self)),
    {
        match self {
            Cell::Empty => 0,
            Cell::SingleLine(_, width) => *width,
            Cell::MultiLine(lines) => {
                let ghost lv = lines@.map_values(|pr: (String, usize)| (pr.0@, pr.1 as nat));
                let n = lines.len();
                let mut m: usize = 0;
                let mut k: usize = 0;
                while k < n
                    invariant
                        k <= n,
                        n == lines@.len(),
                        lv == lines@.map_values(|pr: (String, usize)| (pr.0@, pr.1 as nat)),
                        gcell_lines_max(lv, 0) == (if m as nat > gcell_lines_max(lv, k as int) {
                            m as nat
                        } else {
                            gcell_lines_max(lv, k as int)
                        }),
                    decreases n - k,
                {
                    let w = lines[k].1;
                    proof {
                        assert(lv[k as int].1 == w as nat);
                    }
                    if w > m {
                        m = w;
                    }
                    k = k + 1;
                }
                m
            },
        }
    }

    /// The width of the last line of this cell.
    pub fn width(&self) -> (r: usize)
        ensures
            r as nat == gcell_width(cell_view(*self)),
    {
        match self {
            Cell::Empty => 0,
            Cell::SingleLine(_, width) => *width,
            Cell::MultiLine(lines) => {
                let n = lines.len();
                if n == 0 {
                    0
                } else {
                    let ghost lv = lines@.map_values(|pr: (String, usize)| (pr.0@, pr.1 as nat));
                    proof {
                        assert(lv.last() == (lines@.last().0@, lines@.last().1 as nat));
                    }
                    lines[n - 1].1
                }
            },
        }
    }
}

/// A measured row: its cells, or a standalone comment's text.
#[derive(Debug)]
pub enum Row {
    Cells(Vec<Cell>),
    Comment(String),
}

/// The ghost value of a measured row.
pub open spec fn row_view(r: Row) -> GRow {
    match r {
        Row::Cells(cells) => GRow::Cells(rowv_of(cells@)),
        Row::Comment(s) => GRow::Comment(s@),
    }
}

/// A fully measured grid: its rows and one maximum width per column.
#[derive(Debug)]
pub struct Aligned {
    pub rows: Vec<Row>,
    pub col_widths: Vec<usize>,
}

/// The ghost cells of a row of node-index vectors.
pub open spec fn cells_view(v: Seq<Vec<usize>>) -> Seq<Seq<usize>> {
    v.map_values(|x: Vec<usize>| x@)
}

/// Column widths as mathematical naturals.
pub open spec fn widths_nat(v: Seq<usize>) -> Seq<nat> {
    v.map_values(|w: usize| w as nat)
}

/// The ghost values of measured cells.
pub open spec fn rowv_of(v: Seq<Cell>) -> Seq<GCell> {
    v.map_values(|c: Cell| cell_view(c))
}

/// The ghost values of measured rows.
pub open spec fn rows_of(v: Seq<Row>) -> Seq<GRow> {
    v.map_values(|x: Row| row_view(x))
}

/// The ghost values of raw rows.
pub open spec fn rawrows_of(v: Seq<RawRow>) -> Seq<GRawRow> {
    v.map_values(|x: RawRow| rawrow_view(x))
}

impl PrettyPrinter {
    /// Append the flattened grid-relevant descendants of node `i`.
    fn flat_into(&self, tree: &SyntaxTree, i: usize, out: &mut Vec<usize>)
        requires
            tree.wf(),
            i < tree.nodes@.len(),
        ensures
            final(out)@ == old(out)@ + flat_children(*self, tree.nodes@, i as int, 0),
        decreases tree.nodes@.len() - i,
    {
        let ghost t = tree.nodes@;
        let ghost cs = t[i as int].children@;
        let n = tree.num_children(i);
        let mut k: usize = 0;
        while k < n
            invariant
                k <= n,
                tree.wf(),
                i < t.len(),
                t == tree.nodes@,
                cs == t[i as int].children@,
                n == cs.len(),
                out@ + flat_children(*self, t, i as int, k as int) == old(out)@ + flat_children(
                    *self,
                    t,
                    i as int,
                    0,
                ),
            decreases n - k,
        {
            let c = tree.child(i, k);
            let descend = (tree.kind(c) == SyntaxKind::Math || tree.kind(c)
                == SyntaxKind::MathDelimited) && self.attrs.has_alignment_marker(c);
            if descend {
                self.flat_into(tree, c, out);
            } else {
                out.push(c);
            }
            proof {
                assert(out@ + flat_children(*self, t, i as int, k + 1) =~= old(out)@
                    + flat_children(*self, t, i as int, 0));
            }
            k = k + 1;
        }
        proof {
            assert(out@ =~= old(out)@ + flat_children(*self, t, i as int, 0));
        }
    }
}

/// The cell without its trailing whitespace nodes, as a fresh list.
fn trim_trailing_spaces(tree: &SyntaxTree, cell: &Vec<usize>) -> (r: Vec<usize>)
    requires
        tree.wf(),
        forall|q: int| 0 <= q < cell@.len() ==> (#[trigger] cell@[q]) < tree.nodes@.len(),
    ensures
        r@ == trim_cell(tree.nodes@, cell@),
        r@.len() <= cell@.len(),
        r@ == cell@.subrange(0, r@.len() as int),
{
    let ghost t = tree.nodes@;
    let mut m = cell.len();
    let mut done = false;
    proof {
        assert(cell@.subrange(0, m as int) =~= cell@);
    }
    while m > 0 && !done
        invariant
            m <= cell@.len(),
            tree.wf(),
            t == tree.nodes@,
            forall|q: int| 0 <= q < cell@.len() ==> (#[trigger] cell@[q]) < t.len(),
            trim_cell(t, cell@.subrange(0, m as int)) == trim_cell(t, cell@),
            done ==> (m == 0 || t[cell@[m - 1] as int].kind != SyntaxKind::Space),
        decreases m, (if done { 0int } else { 1int }),
    {
        let c = cell[m - 1];
        if tree.kind(c) == SyntaxKind::Space {
            proof {
                assert(cell@.subrange(0, m as int).last() == cell@[m - 1]);
                assert(cell@.subrange(0, m as int).drop_last() =~= cell@.subrange(0, m - 1));
            }
            m = m - 1;
        } else {
            done = true;
        }
    }
    proof {
        assert(trim_cell(t, cell@.subrange(0, m as int)) == cell@.subrange(0, m as int));
    }
    let mut r: Vec<usize> = Vec::new();
    let mut j: usize = 0;
    while j < m
        invariant
            j <= m,
            m <= cell@.len(),
            r@ =~= cell@.subrange(0, j as int),
        decreases m - j,
    {
        r.push(cell[j]);
        proof {
            assert(r@ =~= cell@.subrange(0, j + 1));
        }
        j = j + 1;
    }
    proof {
        assert(r@ =~= cell@.subrange(0, m as int));
    }
    r
}

/// Collect math syntax nodes: flatten the subtree, split into lines at
/// line breaks, and split each line at alignment markers into cells, with
/// leading standalone comments as rows of their own.
#[verifier::rlimit(60)]
pub fn collect_aligned(p: &PrettyPrinter, tree: &SyntaxTree, i: usize) -> (r: RawAligned)
    requires
        tree.wf(),
        i < tree.nodes@.len(),
    ensures
        rawrows_of(r.rows@) == spec_collect_aligned(
            *p,
            tree.nodes@,
            i as int,
        ).0,
        r.has_trailing_backslash == spec_collect_aligned(*p, tree.nodes@, i as int).1,
        forall|ri: int| 0 <= ri < r.rows@.len() ==> rawrow_ok(tree.nodes@, i as int, #[trigger] r.rows@[ri]),
{
    let ghost t = tree.nodes@;
    let mut flat: Vec<usize> = Vec::new();
    p.flat_into(tree, i, &mut flat);
    let ghost gflat = flat_children(*p, t, i as int, 0);
    proof {
        lemma_flat_bounds(*p, t, i as int, 0);
        assert(flat@ =~= gflat);
    }
    // split into lines at linebreaks; the trailing line stays in `cur`
    let mut lines: Vec<Vec<usize>> = Vec::new();
    let mut cur: Vec<usize> = Vec::new();
    proof {
        assert(cells_view(lines@) =~= Seq::<Seq<usize>>::empty());
        assert(cur@ =~= Seq::<usize>::empty());
    }
    let nf = flat.len();
    let mut k: usize = 0;
    while k < nf
        invariant
            k <= nf,
            tree.wf(),
            i < t.len(),
            t == tree.nodes@,
            nf == flat@.len(),
            flat@ == gflat,
            forall|q: int| 0 <= q < gflat.len() ==> i < #[trigger] gflat[q] < t.len(),
            forall|q: int| 0 <= q < cur@.len() ==> i < #[trigger] cur@[q] < t.len(),
            forall|li: int, q: int|
                0 <= li < lines@.len() && 0 <= q < lines@[li]@.len() ==> i < (#[trigger] lines@[
                li]@[q]) < t.len(),
            split_rows(t, gflat, k as int, cur@, cells_view(lines@))
                == split_rows(t, gflat, 0, Seq::empty(), Seq::empty()),
        decreases nf - k,
    {
        let c = flat[k];
        proof {
            assert(i < gflat[k as int] < t.len());
        }
        if tree.kind(c) == SyntaxKind::Linebreak {
            let ghost before = cells_view(lines@);
            let ghost gcur = cur@;
            lines.push(cur);
            cur = Vec::new();
            proof {
                assert(cells_view(lines@) =~= before.push(gcur));
            }
        } else {
            cur.push(c);
        }
        k = k + 1;
    }
    let ghost lines0 = split_rows(t, gflat, 0, Seq::empty(), Seq::empty());
    // a trailing empty line records a requested line continuation and is
    // dropped; otherwise the final line joins the rest
    let has_trailing = cur.len() == 0;
    proof {
        assert(lines0 == cells_view(lines@).push(cur@));
        assert(lines0.drop_last() =~= cells_view(lines@));
        assert(lines0.last() == cur@);
    }
    if !has_trailing {
        let ghost before = cells_view(lines@);
        let ghost gcur = cur@;
        lines.push(cur);
        proof {
            assert(cells_view(lines@) =~= before.push(gcur));
        }
    }
    proof {
        assert(cells_view(lines@) =~= (if has_trailing {
            lines0.drop_last()
        } else {
            lines0
        }));
        assert(has_trailing == (lines0.len() > 0 && lines0.last().len() == 0));
    }
    // build rows line by line
    let ghost glines = cells_view(lines@);
    let mut rows: Vec<RawRow> = Vec::new();
    proof {
        assert(rawrows_of(rows@) =~= Seq::<GRawRow>::empty());
    }
    let nls = lines.len();
    let mut li: usize = 0;
    while li < nls
        invariant
            li <= nls,
            tree.wf(),
            i < t.len(),
            t == tree.nodes@,
            nls == lines@.len(),
            glines == cells_view(lines@),
            forall|lj: int, q: int|
                0 <= lj < lines@.len() && 0 <= q < lines@[lj]@.len() ==> i < (#[trigger] lines@[
                lj]@[q]) < t.len(),
            forall|ri: int| 0 <= ri < rows@.len() ==> rawrow_ok(t, i as int, #[trigger] rows@[ri]),
            collect_rows(t, glines, li as int, rawrows_of(rows@))
                == collect_rows(t, glines, 0, Seq::empty()),
        decreases nls - li,
    {
        let ghost rows_entry = rawrows_of(rows@);
        let ghost gline = glines[li as int];
        proof {
            assert(gline == lines@[li as int]@);
        }
        let line_len = lines[li].len();
        let mut cells: Vec<Vec<usize>> = Vec::new();
        let mut cell: Vec<usize> = Vec::new();
        proof {
            assert(cells_view(cells@) =~= Seq::<Seq<usize>>::empty());
            assert(cell@ =~= Seq::<usize>::empty());
        }
        let mut j: usize = 0;
        while j < line_len
            invariant
                j <= line_len,
                li < nls,
                tree.wf(),
                i < t.len(),
                t == tree.nodes@,
                nls == lines@.len(),
                glines == cells_view(lines@),
                gline == glines[li as int],
                gline == lines@[li as int]@,
                line_len == lines@[li as int]@.len(),
                forall|lj: int, q: int|
                    0 <= lj < lines@.len() && 0 <= q < lines@[lj]@.len() ==> i < (
                    #[trigger] lines@[lj]@[q]) < t.len(),
                forall|q: int| 0 <= q < cell@.len() ==> i < #[trigger] cell@[q] < t.len(),
                forall|ci: int, q: int|
                    0 <= ci < cells@.len() && 0 <= q < cells@[ci]@.len() ==> i < (
                    #[trigger] cells@[ci]@[q]) < t.len(),
                forall|ri: int|
                    0 <= ri < rows@.len() ==> rawrow_ok(t, i as int, #[trigger] rows@[ri]),
                line_rows(
                    t,
                    gline,
                    j as int,
                    cells_view(cells@),
                    cell@,
                    rawrows_of(rows@),
                ) == line_rows(t, gline, 0, Seq::empty(), Seq::empty(), rows_entry),
            decreases line_len - j,
        {
            let c = lines[li][j];
            proof {
                assert(gline[j as int] == c);
                assert(i < c < t.len());
            }
            let kd = tree.kind(c);
            if kd == SyntaxKind::MathAlignPoint {
                let trimmed = trim_trailing_spaces(tree, &cell);
                proof {
                    assert forall|q: int| 0 <= q < trimmed@.len() implies i < (
                    #[trigger] trimmed@[q]) < t.len() by {
                        assert(trimmed@[q] == cell@.subrange(0, trimmed@.len() as int)[q]);
                        assert(trimmed@[q] == cell@[q]);
                    }
                }
                let ghost bcells = cells_view(cells@);
                let ghost gc = trimmed@;
                cells.push(trimmed);
                cell = Vec::new();
                proof {
                    assert(cells_view(cells@) =~= bcells.push(gc));
                    assert(cell@ =~= Seq::<usize>::empty());
                    assert(forall|q: int| 0 <= q < gc.len() ==> i < #[trigger] gc[q] < t.len());
                    assert(forall|ci: int, q: int|
                        0 <= ci < cells@.len() && 0 <= q < cells@[ci]@.len() ==> i < (
                        #[trigger] cells@[ci]@[q]) < t.len());
                }
            } else if kd == SyntaxKind::Space && cell.len() == 0 {
            } else if kd == SyntaxKind::LineComment && cells.len() == 0 && cell.len() == 0 {
                let ghost brows = rawrows_of(rows@);
                rows.push(RawRow::Comment(c));
                proof {
                    assert(rawrows_of(rows@) =~= brows.push(
                        GRawRow::Comment(c as int),
                    ));
                    assert(rawrow_ok(t, i as int, rows@[rows@.len() - 1]));
                    assert(forall|ri: int|
                        0 <= ri < rows@.len() ==> rawrow_ok(t, i as int, #[trigger] rows@[ri]));
                }
            } else {
                cell.push(c);
            }
            j = j + 1;
        }
        let trimmed = trim_trailing_spaces(tree, &cell);
        proof {
            assert forall|q: int| 0 <= q < trimmed@.len() implies i < (
            #[trigger] trimmed@[q]) < t.len() by {
                assert(trimmed@[q] == cell@.subrange(0, trimmed@.len() as int)[q]);
                assert(trimmed@[q] == cell@[q]);
            }
        }
        let ghost bcells = cells_view(cells@);
        let ghost gc = trimmed@;
        cells.push(trimmed);
        proof {
            assert(cells_view(cells@) =~= bcells.push(gc));
            assert(forall|q: int| 0 <= q < gc.len() ==> i < #[trigger] gc[q] < t.len());
            assert(forall|ci: int, q: int|
                0 <= ci < cells@.len() && 0 <= q < cells@[ci]@.len() ==> i < (
                #[trigger] cells@[ci]@[q]) < t.len());
        }
        let ghost brows = rawrows_of(rows@);
        let ghost gcells = cells_view(cells@);
        rows.push(RawRow::Cells(cells));
        proof {
            assert(rawrows_of(rows@) =~= brows.push(
                GRawRow::Cells(gcells),
            ));
            assert(rawrow_ok(t, i as int, rows@[rows@.len() - 1]));
            assert(forall|ri: int|
                0 <= ri < rows@.len() ==> rawrow_ok(t, i as int, #[trigger] rows@[ri]));
        }
        li = li + 1;
    }
    RawAligned { rows, has_trailing_backslash: has_trailing }
}

impl PrettyPrinter {
    /// Convert the child nodes of one grid cell, in sequence.
    pub fn convert_math_children(
        &self,
        tree: &SyntaxTree,
        ctx: Context,
        cell: &Vec<usize>,
        Ghost(anchor): Ghost<int>,
    ) -> (r: Doc)
        requires
            tree.wf(),
            0 <= anchor < tree.nodes@.len(),
            forall|q: int| 0 <= q < cell@.len() ==> anchor < #[trigger] cell@[q] < tree.nodes@.len(),
        ensures
            r@ == cv_math_children(*self, tree.nodes@, ctx, anchor, cell@, 0, GDoc::Nil),
        decreases tree.nodes@.len() - anchor, 6int, 0int, 0int,
    {
        let ghost t = tree.nodes@;
        let n = cell.len();
        let mut d = Doc::nil();
        let mut k: usize = 0;
        while k < n
            invariant
                k <= n,
                tree.wf(),
                0 <= anchor < t.len(),
                t == tree.nodes@,
                n == cell@.len(),
                forall|q: int| 0 <= q < cell@.len() ==> anchor < #[trigger] cell@[q] < t.len(),
                cv_math_children(*self, t, ctx, anchor, cell@, k as int, d@) == cv_math_children(
                    *self,
                    t,
                    ctx,
                    anchor,
                    cell@,
                    0,
                    GDoc::Nil,
                ),
            decreases n - k,
        {
            let c = cell[k];
            let kd = tree.kind(c);
            let piece = if is_expr_kind(kd) {
                self.convert_expr(tree, ctx, c)
            } else if kd == SyntaxKind::Space {
                self.convert_space_untyped(tree, ctx, c)
            } else {
                trivia(tree, c)
            };
            d = d.append(piece);
            k = k + 1;
        }
        d
    }

    /// Measure one cell: render its nodes to text and classify the result.
    /// Classify one rendered multi-line cell: its lines, each with its
    /// padded width.
    #[verifier::rlimit(100)]
    fn classify_multi(&self, buf: &str, ci: usize, col_num: usize) -> (r: Vec<(String, usize)>)
        ensures
            r@.map_values(|pr: (String, usize)| (pr.0@, pr.1 as nat)) == spec_lines(
                buf@,
            ).map_values(
                |l: Seq<char>| (l, measure_width(l, ci as int, col_num as nat)),
            ),
    {
        let lines = str_split_lines(buf);
        let ghost gls = spec_lines(buf@);
        proof {
            assert(lines@.map_values(|x: String| x@).len() == gls.len());
            assert(forall|q: int|
                0 <= q < lines@.len() ==> #[trigger] lines@[q]@ == lines@.map_values(
                    |x: String| x@,
                )[q]);
        }
        let m = lines.len();
        let mut out: Vec<(String, usize)> = Vec::new();
        let mut q: usize = 0;
        while q < m
            invariant
                q <= m,
                m == lines@.len(),
                m == gls.len(),
                forall|x: int| 0 <= x < m ==> #[trigger] lines@[x]@ == gls[x],
                out@.map_values(|pr: (String, usize)| (pr.0@, pr.1 as nat)) =~= gls.subrange(
                    0,
                    q as int,
                ).map_values(|l: Seq<char>| (l, measure_width(l, ci as int, col_num as nat))),
            decreases m - q,
        {
            let line = lines[q].clone();
            let w0 = crate::width::str_width(line.as_str());
            let w = if ci == 0 || (col_num > 0 && ci == col_num - 1) {
                crate::doc::sat_add(w0, 1)
            } else {
                crate::doc::sat_add(w0, 2)
            };
            let ghost before = out@.map_values(|pr: (String, usize)| (pr.0@, pr.1 as nat));
            out.push((line, w));
            proof {
                assert(out@.map_values(|pr: (String, usize)| (pr.0@, pr.1 as nat))
                    =~= before.push((gls[q as int], measure_width(gls[q as int], ci as int, col_num as nat))));
                assert(gls.subrange(0, q + 1).map_values(
                    |l: Seq<char>| (l, measure_width(l, ci as int, col_num as nat)),
                ) =~= gls.subrange(0, q as int).map_values(
                    |l: Seq<char>| (l, measure_width(l, ci as int, col_num as nat)),
                ).push((gls[q as int], measure_width(gls[q as int], ci as int, col_num as nat))));
            }
            q = q + 1;
        }
        proof {
            assert(gls.subrange(0, m as int) =~= gls);
        }
        out
    }

    /// Measure one cell: render its nodes to text and classify the result.
    #[verifier::rlimit(100)]
    /// Render the nodes of one cell to text, with one extra line when the
    /// cell ends in a line comment.
    fn render_cell_text(
        &self,
        tree: &SyntaxTree,
        ctx: Context,
        cell_nodes: &Vec<usize>,
        Ghost(anchor): Ghost<int>,
    ) -> (r: String)
        requires
            tree.wf(),
            0 <= anchor < tree.nodes@.len(),
            forall|q: int|
                0 <= q < cell_nodes@.len() ==> anchor < #[trigger] cell_nodes@[q]
                    < tree.nodes@.len(),
        ensures
            r@ == cell_buf(*self, tree.nodes@, ctx, anchor, cell_nodes@),
        decreases tree.nodes@.len() - anchor, 7int, 0int, 0int,
    {
        let ghost t = tree.nodes@;
        let doc = self.convert_math_children(tree, ctx, cell_nodes, Ghost(anchor));
        let mut buf = doc.pretty(self.config.max_width);
        let n = cell_nodes.len();
        let ends_with_comment = n > 0 && tree.kind(cell_nodes[n - 1]) == SyntaxKind::LineComment;
        if ends_with_comment {
            buf.append("\n ");
        }
        proof {
            reveal(cell_buf);
            reveal_strlit("\n ");
            assert(("\n ")@ =~= seq!['\n', ' ']);
            assert(buf@ == cell_buf(*self, t, ctx, anchor, cell_nodes@));
        }
        buf
    }

    /// Classify one rendered cell at column `ci`.
    fn classify_exec(&self, buf: String, ci: usize, col_num: usize) -> (r: Cell)
        ensures
            cell_view(r) == classify_cell(buf@, ci as int, col_num as nat),
    {
        if buf.as_str().unicode_len() == 0 {
            Cell::Empty
        } else if str_has_nl(buf.as_str()) {
            Cell::MultiLine(self.classify_multi(buf.as_str(), ci, col_num))
        } else {
            let w0 = crate::width::str_width(buf.as_str());
            let w = if ci == 0 || (col_num > 0 && ci == col_num - 1) {
                crate::doc::sat_add(w0, 1)
            } else {
                crate::doc::sat_add(w0, 2)
            };
            Cell::SingleLine(buf, w)
        }
    }

    /// Measure one cell: render its nodes to text and classify the result.
    fn measure_cell(
        &self,
        tree: &SyntaxTree,
        ctx: Context,
        cell_nodes: &Vec<usize>,
        ci: usize,
        col_num: usize,
        Ghost(anchor): Ghost<int>,
    ) -> (r: Cell)
        requires
            tree.wf(),
            0 <= anchor < tree.nodes@.len(),
            forall|q: int|
                0 <= q < cell_nodes@.len() ==> anchor < #[trigger] cell_nodes@[q]
                    < tree.nodes@.len(),
        ensures
            cell_view(r) == classify_cell(
                cell_buf(*self, tree.nodes@, ctx, anchor, cell_nodes@),
                ci as int,
                col_num as nat,
            ),
        decreases tree.nodes@.len() - anchor, 8int, 0int, 0int,
    {
        let buf = self.render_cell_text(tree, ctx, cell_nodes, Ghost(anchor));
        self.classify_exec(buf, ci, col_num)
    }

    /// Measure the cells of one row against the running column widths and
    /// grid width, aborting once the grid total would exceed the maximum.
    #[verifier::rlimit(100)]
    fn measure_row(
        &self,
        tree: &SyntaxTree,
        ctx: Context,
        cells: &Vec<Vec<usize>>,
        col_num: usize,
        col_widths: &Vec<usize>,
        grid_width: usize,
        Ghost(anchor): Ghost<int>,
    ) -> (r: Option<(Vec<Cell>, Vec<usize>, usize)>)
        requires
            tree.wf(),
            0 <= anchor < tree.nodes@.len(),
            forall|x: int, q: int|
                0 <= x < cells@.len() && 0 <= q < cells@[x]@.len() ==> anchor < (
                #[trigger] cells@[x]@[q]) < tree.nodes@.len(),
        ensures
            ({
                let g = measure_cells(
                    *self,
                    tree.nodes@,
                    ctx,
                    anchor,
                    cells_view(cells@),
                    col_num as nat,
                    0,
                    Seq::empty(),
                    widths_nat(col_widths@),
                    grid_width as nat,
                );
                match r {
                    Option::Some(tr) => g == Option::Some(
                        (
                            rowv_of(tr.0@),
                            widths_nat(tr.1@),
                            tr.2 as nat,
                        ),
                    ) && tr.1@.len() == col_widths@.len(),
                    Option::None => g is None,
                }
            }),
        decreases tree.nodes@.len() - anchor, 9int, 0int, 0int,
    {
        let ghost t = tree.nodes@;
        let ghost gcells = cells_view(cells@);
        let ghost widths_entry = widths_nat(col_widths@);
        let ghost gw_entry = grid_width as nat;
        let mut widths: Vec<usize> = Vec::new();
        let nw = col_widths.len();
        let mut zz: usize = 0;
        while zz < nw
            invariant
                zz <= nw,
                nw == col_widths@.len(),
                widths@ =~= col_widths@.subrange(0, zz as int),
            decreases nw - zz,
        {
            widths.push(col_widths[zz]);
            proof {
                assert(widths@ =~= col_widths@.subrange(0, zz + 1));
            }
            zz = zz + 1;
        }
        proof {
            assert(widths@ =~= col_widths@);
            assert(widths_nat(widths@) =~= widths_entry);
        }
        let mut gw = grid_width;
        let nc = cells.len();
        let mut row_cells: Vec<Cell> = Vec::new();
        proof {
            assert(rowv_of(row_cells@) =~= Seq::<GCell>::empty());
        }
        let mut ci: usize = 0;
        while ci < nc
            invariant
                ci <= nc,
                tree.wf(),
                0 <= anchor < t.len(),
                t == tree.nodes@,
                nc == gcells.len(),
                nc == cells@.len(),
                gcells == cells_view(cells@),
                widths_entry == widths_nat(col_widths@),
                gw_entry == grid_width as nat,
                forall|x: int, q: int|
                    0 <= x < cells@.len() && 0 <= q < cells@[x]@.len() ==> anchor < (
                    #[trigger] cells@[x]@[q]) < t.len(),
                widths@.len() == widths_entry.len(),
                measure_cells(
                    *self,
                    t,
                    ctx,
                    anchor,
                    gcells,
                    col_num as nat,
                    ci as int,
                    rowv_of(row_cells@),
                    widths_nat(widths@),
                    gw as nat,
                ) == measure_cells(
                    *self,
                    t,
                    ctx,
                    anchor,
                    gcells,
                    col_num as nat,
                    0,
                    Seq::empty(),
                    widths_entry,
                    gw_entry,
                ),
            decreases nc - ci,
        {
            let ghost rowv0 = rowv_of(row_cells@);
            let ghost widths0 = widths_nat(widths@);
            let ghost gw0 = gw as nat;
            let ghost ci0 = ci as int;
            proof {
                assert(gcells[ci as int] == cells@[ci as int]@);
            }
            let cell = self.measure_cell(tree, ctx, &cells[ci], ci, col_num, Ghost(anchor));
            let ghost gcell = cell_view(cell);
            let ghost cellterm = classify_cell(
                cell_buf(*self, t, ctx, anchor, gcells[ci0]),
                ci0,
                col_num as nat,
            );
            proof {
                assert(gcell == cellterm);
            }
            let w = cell.width();
            proof {
                assert(w as nat == gcell_width(cellterm));
            }
            if ci >= widths.len() {
                proof {
                    assert(measure_cells(
                        *self, t, ctx, anchor, gcells, col_num as nat, ci0, rowv0, widths0, gw0,
                    ) is None) by {
                        reveal_with_fuel(measure_cells, 2);
                        reveal(cell_buf);
                    }
                    assert(measure_cells(
                        *self,
                        t,
                        ctx,
                        anchor,
                        gcells,
                        col_num as nat,
                        0,
                        Seq::empty(),
                        widths_entry,
                        gw_entry,
                    ) is None);
                    assert(widths_nat(col_widths@) =~= widths_entry);
                    assert(measure_cells(
                        *self,
                        tree.nodes@,
                        ctx,
                        anchor,
                        cells_view(cells@),
                        col_num as nat,
                        0,
                        Seq::empty(),
                        widths_nat(col_widths@),
                        grid_width as nat,
                    ) is None);
                }
                return Option::None;
            }
            if w > widths[ci] {
                let gw2 = crate::doc::sat_add(gw, w - widths[ci]);
                if gw2 > self.config.max_width {
                    proof {
                        lemma_measure_cells_step(
                            *self, t, ctx, anchor, gcells, col_num as nat, ci0, rowv0, widths0,
                            gw0,
                        );
                        assert(cellterm == cell_at(
                            *self, t, ctx, anchor, gcells, col_num as nat, ci0,
                        )) by {
                            reveal(cell_buf);
                        }
                        assert(gcell_width(cellterm) > widths0[ci0]);
                        assert(satadd(gw0, (gcell_width(cellterm) - widths0[ci0]) as nat) == gw2 as nat);
                        assert(measure_cells(
                            *self, t, ctx, anchor, gcells, col_num as nat, ci0, rowv0, widths0,
                            gw0,
                        ) is None);
                        assert(measure_cells(
                            *self,
                            t,
                            ctx,
                            anchor,
                            gcells,
                            col_num as nat,
                            0,
                            Seq::empty(),
                            widths_entry,
                            gw_entry,
                        ) is None);
                    assert(widths_nat(col_widths@) =~= widths_entry);
                    assert(measure_cells(
                        *self,
                        tree.nodes@,
                        ctx,
                        anchor,
                        cells_view(cells@),
                        col_num as nat,
                        0,
                        Seq::empty(),
                        widths_nat(col_widths@),
                        grid_width as nat,
                    ) is None);
                    }
                    return Option::None;
                }
                let ghost wbefore = widths_nat(widths@);
                widths.set(ci, w);
                gw = gw2;
                proof {
                    assert(widths_nat(widths@) =~= wbefore.update(
                        ci as int,
                        w as nat,
                    ));
                }
            }
            let ghost cbefore = rowv_of(row_cells@);
            row_cells.push(cell);
            proof {
                lemma_measure_cells_step(
                    *self, t, ctx, anchor, gcells, col_num as nat, ci0, rowv0, widths0, gw0,
                );
                assert(cellterm == cell_at(*self, t, ctx, anchor, gcells, col_num as nat, ci0))
                    by {
                    reveal(cell_buf);
                }
                assert(rowv_of(row_cells@) =~= cbefore.push(gcell));
                assert(measure_cells(
                    *self, t, ctx, anchor, gcells, col_num as nat, ci0, rowv0, widths0, gw0,
                ) == measure_cells(
                    *self,
                    t,
                    ctx,
                    anchor,
                    gcells,
                    col_num as nat,
                    ci0 + 1,
                    rowv_of(row_cells@),
                    widths_nat(widths@),
                    gw as nat,
                ));
            }
            ci = ci + 1;
        }
        Option::Some((row_cells, widths, gw))
    }

    /// Build measured rows by rendering each cell and tracking column
    /// widths, aborting once the grid's total width would exceed the
    /// configured maximum.
    #[verifier::rlimit(100)]
    pub fn render_aligned(
        &self,
        tree: &SyntaxTree,
        ctx: Context,
        raw_rows: &Vec<RawRow>,
        Ghost(anchor): Ghost<int>,
    ) -> (r: Option<Aligned>)
        requires
            tree.wf(),
            0 <= anchor < tree.nodes@.len(),
            forall|ri: int|
                0 <= ri < raw_rows@.len() ==> rawrow_ok(tree.nodes@, anchor, #[trigger] raw_rows@[ri]),
        ensures
            ({
                let g = cv_render_aligned(
                    *self,
                    tree.nodes@,
                    ctx,
                    anchor,
                    rawrows_of(raw_rows@),
                );
                match r {
                    Option::Some(al) => g matches Option::Some(gr) && al.rows@.map_values(
                        |x: Row| row_view(x),
                    ) == gr.0 && widths_nat(al.col_widths@) == gr.1,
                    Option::None => g is None,
                }
            }),
        decreases tree.nodes@.len() - anchor, 10int, 0int, 0int,
    {
        let ghost t = tree.nodes@;
        let ghost growsv = rawrows_of(raw_rows@);
        let nr = raw_rows.len();
        // the column count
        let mut col_num: usize = 0;
        let mut k: usize = nr;
        while k > 0
            invariant
                k <= nr,
                nr == raw_rows@.len(),
                growsv == rawrows_of(raw_rows@),
                col_num as nat == rows_max_len(growsv, k as int),
            decreases k,
        {
            k = k - 1;
            let l = raw_rows[k].len();
            if l > col_num {
                col_num = l;
            }
        }
        if col_num > self.config.max_width {
            return Option::None;
        }
        let mut col_widths: Vec<usize> = Vec::new();
        let mut z: usize = 0;
        while z < col_num
            invariant
                z <= col_num,
                col_widths@.len() == z,
                forall|q: int| 0 <= q < z ==> #[trigger] col_widths@[q] == 0,
            decreases col_num - z,
        {
            col_widths.push(0);
            z = z + 1;
        }
        proof {
            assert(widths_nat(col_widths@) =~= Seq::new(
                col_num as nat,
                |x: int| 0nat,
            ));
        }
        let mut grid_width: usize = col_num;
        let mut out_rows: Vec<Row> = Vec::new();
        proof {
            assert(rows_of(out_rows@) =~= Seq::<GRow>::empty());
        }
        let mut ri: usize = 0;
        while ri < nr
            invariant
                ri <= nr,
                tree.wf(),
                0 <= anchor < t.len(),
                t == tree.nodes@,
                nr == raw_rows@.len(),
                growsv == rawrows_of(raw_rows@),
                forall|rj: int|
                    0 <= rj < raw_rows@.len() ==> rawrow_ok(t, anchor, #[trigger] raw_rows@[rj]),
                col_widths@.len() == col_num,
                col_num as nat == rows_max_len(growsv, 0),
                col_num <= self.config.max_width,
                measure_rows(
                    *self,
                    t,
                    ctx,
                    anchor,
                    growsv,
                    col_num as nat,
                    ri as int,
                    rows_of(out_rows@),
                    widths_nat(col_widths@),
                    grid_width as nat,
                ) == measure_rows(
                    *self,
                    t,
                    ctx,
                    anchor,
                    growsv,
                    col_num as nat,
                    0,
                    Seq::empty(),
                    Seq::new(col_num as nat, |x: int| 0nat),
                    col_num as nat,
                ),
            decreases nr - ri,
        {
            let row = &raw_rows[ri];
            match row {
                RawRow::Comment(c) => {
                    let ghost before = rows_of(out_rows@);
                    let text = tree.text(*c).to_owned();
                    let ghost gtextv = text@;
                    out_rows.push(Row::Comment(text));
                    proof {
                        assert(rawrow_view(raw_rows@[ri as int]) == GRawRow::Comment(*c as int));
                        assert(rows_of(out_rows@) =~= before.push(
                            GRow::Comment(gtextv),
                        ));
                    }
                },
                RawRow::Cells(cells) => {
                    let ghost gcells = cells_view(cells@);
                    let ghost rows_entry = rows_of(out_rows@);
                    proof {
                        assert(rawrow_view(raw_rows@[ri as int]) == GRawRow::Cells(gcells));
                        assert(rawrow_ok(t, anchor, raw_rows@[ri as int]));
                        assert forall|x: int, q: int|
                            0 <= x < cells@.len() && 0 <= q < cells@[x]@.len() implies anchor < (
                        #[trigger] cells@[x]@[q]) < t.len() by {
                            assert(gcells[x] == cells@[x]@);
                        }
                    }
                    match self.measure_row(
                        tree,
                        ctx,
                        cells,
                        col_num,
                        &col_widths,
                        grid_width,
                        Ghost(anchor),
                    ) {
                        Option::None => {
                            return Option::None;
                        },
                        Option::Some((rc, w2, g2)) => {
                            col_widths = w2;
                            grid_width = g2;
                            let ghost grc = rowv_of(rc@);
                            out_rows.push(Row::Cells(rc));
                            proof {
                                assert(rows_of(out_rows@)
                                    =~= rows_entry.push(GRow::Cells(grc)));
                            }
                        },
                    }
                },
            }
            ri = ri + 1;
        }
        Option::Some(Aligned { rows: out_rows, col_widths })
    }

    /// One padded cell of the grid.
    fn print_cell(
        &self,
        cell: &Cell,
        j: usize,
        col_widths: &Vec<usize>,
        sums: &Vec<usize>,
        num_cols: usize,
        is_last: bool,
    ) -> (r: Doc)
        requires
            sums@.len() == col_widths@.len() + 1,
            forall|q: int|
                0 <= q <= col_widths@.len() ==> #[trigger] sums@[q] as nat == col_sums(
                    widths_nat(col_widths@),
                    q,
                ),
        ensures
            r@ == print_cell(
                cell_view(*cell),
                j as int,
                widths_nat(col_widths@),
                num_cols as nat,
                is_last,
            ),
    {
        let ghost gw = widths_nat(col_widths@);
        let left_aligned = (j % 2 == 1) || num_cols == 1;
        let col_width: usize = if j < col_widths.len() {
            col_widths[j]
        } else {
            0
        };
        match cell {
            Cell::Empty => {
                if left_aligned && is_last {
                    Doc::nil()
                } else {
                    spaces(col_width)
                }
            },
            Cell::SingleLine(text, w) => {
                if left_aligned {
                    if is_last {
                        Doc::str_text(text.as_str())
                    } else {
                        let pad = if col_width >= *w {
                            col_width - *w
                        } else {
                            0
                        };
                        Doc::str_text(text.as_str()).append(spaces(pad))
                    }
                } else {
                    let pad = if col_width >= *w {
                        col_width - *w
                    } else {
                        0
                    };
                    spaces(pad).append(Doc::str_text(text.as_str()))
                }
            },
            Cell::MultiLine(lines) => {
                let ghost lv = lines@.map_values(|pr: (String, usize)| (pr.0@, pr.1 as nat));
                let cell_width = {
                    let n = lines.len();
                    let mut m: usize = 0;
                    let mut k: usize = 0;
                    while k < n
                        invariant
                            k <= n,
                            n == lines@.len(),
                            lv == lines@.map_values(|pr: (String, usize)| (pr.0@, pr.1 as nat)),
                            gcell_lines_max(lv, 0) == (if m as nat > gcell_lines_max(
                                lv,
                                k as int,
                            ) {
                                m as nat
                            } else {
                                gcell_lines_max(lv, k as int)
                            }),
                        decreases n - k,
                    {
                        let w = lines[k].1;
                        proof {
                            assert(lv[k as int].1 == w as nat);
                        }
                        if w > m {
                            m = w;
                        }
                        k = k + 1;
                    }
                    m
                };
                let padding_left: usize = if left_aligned {
                    0
                } else if col_width >= cell_width {
                    col_width - cell_width
                } else {
                    0
                };
                let sj: usize = if j <= col_widths.len() {
                    sums[j]
                } else {
                    sums[col_widths.len()]
                };
                let indent0 = crate::doc::sat_add(crate::doc::sat_add(sj, j), padding_left);
                let indent = if j > 0 {
                    crate::doc::sat_add(indent0, 1)
                } else {
                    indent0
                };
                let nl = lines.len();
                let last_w: usize = if nl > 0 {
                    proof {
                        assert(lv.last() == (lines@.last().0@, lines@.last().1 as nat));
                    }
                    lines[nl - 1].1
                } else {
                    0
                };
                let trailing: usize = if !is_last {
                    let a = if col_width >= padding_left {
                        col_width - padding_left
                    } else {
                        0
                    };
                    if a >= last_w {
                        a - last_w
                    } else {
                        0
                    }
                } else {
                    0
                };
                let mut body = Doc::nil();
                let mut k: usize = 0;
                while k < nl
                    invariant
                        k <= nl,
                        nl == lines@.len(),
                        lv == lines@.map_values(|pr: (String, usize)| (pr.0@, pr.1 as nat)),
                        body@ == gmulti_lines(lv, k as int),
                    decreases nl - k,
                {
                    proof {
                        assert(lv[k as int].0 == lines@[k as int].0@);
                    }
                    if k == 0 {
                        body = Doc::str_text(lines[0].0.as_str());
                    } else {
                        body = body.append(Doc::hardline()).append(
                            Doc::str_text(lines[k].0.as_str()),
                        );
                    }
                    k = k + 1;
                }
                spaces(padding_left).append(body).append(spaces(trailing)).nest(indent)
            },
        }
    }

    /// Combine measured cells: padding, separators and line continuations.
    #[verifier::rlimit(60)]
    pub fn print_aligned(&self, aligned: &Aligned, add_trailing_backslash: bool) -> (r: Doc)
        ensures
            r@ == spec_print_aligned(
                rows_of(aligned.rows@),
                widths_nat(aligned.col_widths@),
                add_trailing_backslash,
            ),
    {
        let ghost grows = rows_of(aligned.rows@);
        let ghost gwidths = widths_nat(aligned.col_widths@);
        let num_cols = aligned.col_widths.len();
        // prefix sums of the column widths
        let mut sums: Vec<usize> = Vec::new();
        sums.push(0);
        let mut z: usize = 0;
        while z < num_cols
            invariant
                z <= num_cols,
                num_cols == aligned.col_widths@.len(),
                gwidths == widths_nat(aligned.col_widths@),
                sums@.len() == z + 1,
                forall|q: int|
                    0 <= q <= z ==> #[trigger] sums@[q] as nat == col_sums(gwidths, q),
            decreases num_cols - z,
        {
            let nxt = crate::doc::sat_add(sums[z], aligned.col_widths[z]);
            sums.push(nxt);
            z = z + 1;
        }
        let num_rows = aligned.rows.len();
        let mut d = Doc::nil();
        let mut ri: usize = 0;
        while ri < num_rows
            invariant
                ri <= num_rows,
                num_rows == aligned.rows@.len(),
                num_cols == aligned.col_widths@.len(),
                grows == rows_of(aligned.rows@),
                gwidths == widths_nat(aligned.col_widths@),
                sums@.len() == num_cols + 1,
                forall|q: int|
                    0 <= q <= num_cols ==> #[trigger] sums@[q] as nat == col_sums(gwidths, q),
                print_rows(grows, gwidths, num_cols as nat, add_trailing_backslash, ri as int, d@)
                    == print_rows(
                    grows,
                    gwidths,
                    num_cols as nat,
                    add_trailing_backslash,
                    0,
                    GDoc::Nil,
                ),
            decreases num_rows - ri,
        {
            let is_last_row = ri + 1 == num_rows;
            let row_doc = match &aligned.rows[ri] {
                Row::Comment(cmt) => Doc::str_text(cmt.as_str()).append(Doc::hardline()),
                Row::Cells(cells) => {
                    let ghost gcellsv = rowv_of(cells@);
                    proof {
                        assert(row_view(aligned.rows@[ri as int]) == GRow::Cells(gcellsv));
                    }
                    let nc = cells.len();
                    let mut rd = Doc::nil();
                    let mut prev_empty = false;
                    let mut j: usize = 0;
                    while j < nc
                        invariant
                            j <= nc,
                            nc == cells@.len(),
                            num_cols == aligned.col_widths@.len(),
                            gwidths == widths_nat(aligned.col_widths@),
                            gcellsv == rowv_of(cells@),
                            sums@.len() == num_cols + 1,
                            forall|q: int|
                                0 <= q <= num_cols ==> #[trigger] sums@[q] as nat == col_sums(
                                    gwidths,
                                    q,
                                ),
                            print_row_cells(
                                gcellsv,
                                j as int,
                                gwidths,
                                num_cols as nat,
                                prev_empty,
                                rd@,
                            ) == print_row_cells(
                                gcellsv,
                                0,
                                gwidths,
                                num_cols as nat,
                                false,
                                GDoc::Nil,
                            ),
                        decreases nc - j,
                    {
                        let cell = &cells[j];
                        let cur_empty = matches!(cell, Cell::Empty);
                        proof {
                            assert(gcellsv[j as int] == cell_view(*cell));
                            assert(cur_empty == gcell_is_empty(gcellsv[j as int]));
                        }
                        let is_last = j + 1 == nc;
                        let cell_doc = self.print_cell(
                            cell,
                            j,
                            &aligned.col_widths,
                            &sums,
                            num_cols,
                            is_last,
                        );
                        let sep = if j > 0 {
                            let s0 = if !prev_empty {
                                Doc::space()
                            } else {
                                Doc::nil()
                            };
                            let s1 = s0.append(Doc::str_text("&"));
                            if !cur_empty {
                                s1.append(Doc::space())
                            } else {
                                s1
                            }
                        } else {
                            Doc::nil()
                        };
                        rd = rd.append(sep.append(cell_doc));
                        prev_empty = cur_empty;
                        j = j + 1;
                    }
                    let needs_backslash = !is_last_row || add_trailing_backslash;
                    if needs_backslash {
                        if nc == 1 && prev_empty {
                            rd = rd.append(Doc::str_text("\\"));
                        } else {
                            rd = rd.append(Doc::str_text(" \\"));
                        }
                    }
                    if !is_last_row {
                        rd = rd.append(Doc::hardline());
                    }
                    rd
                },
            };
            d = d.append(row_doc);
            ri = ri + 1;
        }
        d
    }

    /// Attempt to lay a math node out as an aligned grid; nothing when
    /// alignment is off here, the node is not eligible, or the grid would
    /// be too wide.
    pub fn try_convert_math_aligned(&self, tree: &SyntaxTree, ctx: Context, i: usize) -> (r:
        Option<Doc>)
        requires
            tree.wf(),
            i < tree.nodes@.len(),
        ensures
            ({
                let g = cv_try_aligned(*self, tree.nodes@, ctx, i as int);
                match r {
                    Option::Some(d) => g == Option::Some(d@),
                    Option::None => g is None,
                }
            }),
        decreases tree.nodes@.len() - i, 11int, 0int, 0int,
    {
        if ctx.align_mode == AlignMode::Never || !self.attrs.can_align_in_math(i) {
            return Option::None;
        }
        let ctx2 = ctx.aligned(AlignMode::Outer);
        let raw = collect_aligned(self, tree, i);
        match self.render_aligned(tree, ctx2, &raw.rows, Ghost(i as int)) {
            Option::Some(al) => Option::Some(self.print_aligned(&al, raw.has_trailing_backslash)),
            Option::None => Option::None,
        }
    }

    /// Convert math content: verbatim when disabled, an aligned grid when
    /// one is eligible and fits, the children in sequence otherwise.
    pub fn convert_math(&self, tree: &SyntaxTree, ctx: Context, i: usize) -> (r: Doc)
        requires
            tree.wf(),
            i < tree.nodes@.len(),
        ensures
            r@ == cv_math(*self, tree.nodes@, ctx, i as int),
        decreases tree.nodes@.len() - i, 12int, 0int, 0int,
    {
        if let Option::Some(res) = self.check_disabled(tree, i) {
            return res;
        }
        if let Option::Some(d) = self.try_convert_math_aligned(tree, ctx, i) {
            return d;
        }
        let ghost t = tree.nodes@;
        let ghost cs = t[i as int].children@;
        let n = tree.num_children(i);
        let mut d = Doc::nil();
        let mut k: usize = 0;
        while k < n
            invariant
                k <= n,
                tree.wf(),
                i < t.len(),
                t == tree.nodes@,
                cs == t[i as int].children@,
                n == cs.len(),
                cv_math_seq(*self, t, ctx, i as int, k as int, d@) == cv_math_seq(
                    *self,
                    t,
                    ctx,
                    i as int,
                    0,
                    GDoc::Nil,
                ),
            decreases n - k,
        {
            let c = tree.child(i, k);
            let kd = tree.kind(c);
            let piece = if is_expr_kind(kd) {
                self.convert_expr(tree, ctx, c)
            } else if kd == SyntaxKind::Space {
                self.convert_space_untyped(tree, ctx, c)
            } else {
                trivia(tree, c)
            };
            d = d.append(piece);
            k = k + 1;
        }
        d
    }
}

} // verus!
