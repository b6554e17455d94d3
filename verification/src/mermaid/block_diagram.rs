//! Renderer for block diagrams: blocks are laid out left to right in a grid
//! of `columns` columns (a block may span several), each column sized to its
//! widest label, with an edge summary below.

use vstd::prelude::*;
use crate::text::{
    box_bottom, box_label, box_top, chars_of, pop_newlines, pop_whitespace, push_all, push_box_bottom,
    push_box_label, push_box_top, push_rep, rep, sat_add, sat_sub, str_width, string_from_chars,
    trim_end_ws, trim_newlines, unicode_str_width,
};

verus! {

/// Spaces between adjacent boxes.
pub const COL_GAP: usize = 1;

/// Minimum content width of a column.
pub const MIN_CELL_INNER: usize = 1;

/// A block: an id, an optional text label and the number of columns it spans.
pub struct Block {
    pub id: String,
    pub label: Option<String>,
    pub col_span: usize,
}

/// A directed edge between two blocks, with an optional label.
pub struct BlockEdge {
    pub source: String,
    pub target: String,
    pub label: Option<String>,
}

/// A parsed block diagram.
pub struct BlockDiagram {
    pub columns: usize,
    pub blocks: Vec<Block>,
    pub edges: Vec<BlockEdge>,
}

impl Default for BlockDiagram {
    fn default() -> (r: Self)
        ensures
            r.columns == 0,
            r.blocks@.len() == 0,
            r.edges@.len() == 0,
    {
        BlockDiagram { columns: 0, blocks: Vec::new(), edges: Vec::new() }
    }
}

/// Text shown in a block: its label when present, else its id.
pub open spec fn text_of(b: Block) -> Seq<char> {
    match b.label {
        Some(l) => l@,
        None => b.id@,
    }
}

impl Block {
    /// Text shown in the block: its label when present, else its id.
    pub fn display_text(&self) -> (r: &str)
        ensures
            r@ == text_of(*self),
    {
        match &self.label {
            Some(l) => l.as_str(),
            None => self.id.as_str(),
        }
    }
}

/// Grid placement of one block: its row and the columns `col_start..col_end`.
#[derive(Clone, Copy, Debug)]
pub struct Placement {
    pub block_idx: usize,
    pub row: usize,
    pub col_start: usize,
    pub col_end: usize,
}

/// Columns a block occupies in a grid of `cols` columns: its span clamped to
/// `1..=cols`.
pub open spec fn span_of(b: Block, cols: nat) -> nat {
    let s = if (b.col_span as nat) < cols { b.col_span as nat } else { cols };
    if s > 1 { s } else { 1 }
}

/// Placements of the blocks filled left to right, together with the row and
/// the next free column after the last one. A block that does not fit in
/// the rest of a non-empty row starts the next row; a row that becomes full
/// is closed.
pub open spec fn place_state(blocks: Seq<Block>, cols: nat) -> (Seq<Placement>, nat, nat)
    decreases blocks.len(),
{
    if blocks.len() == 0 {
        (Seq::empty(), 0, 0)
    } else {
        let prev = place_state(blocks.drop_last(), cols);
        let span = span_of(blocks.last(), cols);
        let wrap = prev.2 + span > cols && prev.2 > 0;
        let row = if wrap { prev.1 + 1 } else { prev.1 };
        let col = if wrap { 0 } else { prev.2 };
        let p = Placement {
            block_idx: (blocks.len() - 1) as usize,
            row: row as usize,
            col_start: col as usize,
            col_end: (col + span) as usize,
        };
        if col + span >= cols {
            (prev.0.push(p), row + 1, 0)
        } else {
            (prev.0.push(p), row, col + span)
        }
    }
}

/// Well-formed placements for `blocks` in a grid of `cols` columns.
pub open spec fn placements_ok(ps: Seq<Placement>, blocks: Seq<Block>, cols: nat) -> bool {
    &&& ps.len() == blocks.len()
    &&& forall|i: int| 0 <= i < ps.len() ==> {
        &&& (#[trigger] ps[i]).block_idx == i
        &&& ps[i].col_start < ps[i].col_end <= cols
        &&& ps[i].col_end - ps[i].col_start == span_of(blocks[i], cols)
        &&& ps[i].row <= i
    }
}

/// Blocks fill the grid left to right: each lies inside the grid with its
/// span clamped to the column count, rows never go back, within a row each
/// block starts where the previous one ended, and every row starts at the
/// first column.
pub proof fn blocks_fill_rows_left_to_right(blocks: Seq<Block>, cols: nat)
    requires
        cols >= 1,
        cols <= usize::MAX,
        blocks.len() <= usize::MAX,
    ensures
        placements_ok(place_state(blocks, cols).0, blocks, cols),
        place_state(blocks, cols).2 < cols,
        place_state(blocks, cols).1 <= blocks.len(),
        blocks.len() > 0 ==> place_state(blocks, cols).1 <= place_state(blocks, cols).0.last().row + 1,
        forall|i: int, j: int|
            0 <= i <= j < place_state(blocks, cols).0.len() ==> (#[trigger] place_state(blocks, cols).0[i]).row
                <= (#[trigger] place_state(blocks, cols).0[j]).row,
        forall|i: int|
            0 <= i < place_state(blocks, cols).0.len() ==> (#[trigger] place_state(blocks, cols).0[i]).row
                <= place_state(blocks, cols).1,
        forall|i: int|
            0 <= i < place_state(blocks, cols).0.len() && place_state(blocks, cols).0[i].row
                == place_state(blocks, cols).1 ==> (#[trigger] place_state(blocks, cols).0[i]).col_end
                <= place_state(blocks, cols).2,
        forall|i: int|
            0 <= i && i + 1 < place_state(blocks, cols).0.len() && place_state(blocks, cols).0[i].row
                == place_state(blocks, cols).0[i + 1].row ==> (#[trigger] place_state(blocks, cols).0[i
                + 1]).col_start == place_state(blocks, cols).0[i].col_end,
        forall|i: int|
            0 <= i < place_state(blocks, cols).0.len() && (i == 0 || place_state(blocks, cols).0[i - 1].row
                != place_state(blocks, cols).0[i].row) ==> (#[trigger] place_state(blocks, cols).0[i]).col_start
                == 0,
    decreases blocks.len(),
{
    if blocks.len() > 0 {
        let rest = blocks.drop_last();
        blocks_fill_rows_left_to_right(rest, cols);
        let prev = place_state(rest, cols);
        let st = place_state(blocks, cols);
        assert(st.0.drop_last() =~= prev.0);
        assert forall|i: int| 0 <= i < prev.0.len() implies st.0[i] == prev.0[i] by {}
        assert forall|i: int| 0 <= i < rest.len() implies rest[i] == blocks[i] by {}
    }
}

/// A block wraps to a new row exactly when it does not fit: the first block
/// starts the first row at the first column; each later block stays on the
/// row of the block before it when its clamped span fits in the columns that
/// block left free, and otherwise starts the next row.
pub proof fn blocks_wrap_only_when_they_do_not_fit(blocks: Seq<Block>, cols: nat)
    requires
        cols >= 1,
        cols <= usize::MAX,
        blocks.len() <= usize::MAX,
    ensures
        place_state(blocks, cols).0.len() == blocks.len(),
        place_state(blocks, cols).1 <= blocks.len(),
        place_state(blocks, cols).2 > 0 ==> place_state(blocks, cols).1 < blocks.len(),
        place_state(blocks, cols).2 < cols,
        blocks.len() > 0 ==> place_state(blocks, cols).0[0].row == 0 && place_state(blocks, cols).0[0].col_start == 0,
        forall|i: int, j: int|
            #![trigger place_state(blocks, cols).0[i], place_state(blocks, cols).0[j]]
            0 <= i && j == i + 1 && j < place_state(blocks, cols).0.len() ==> {
                &&& place_state(blocks, cols).0[j].row == place_state(blocks, cols).0[i].row
                    <==> place_state(blocks, cols).0[i].col_end + span_of(blocks[j], cols) <= cols
                &&& place_state(blocks, cols).0[j].row <= place_state(blocks, cols).0[i].row + 1
            },
        blocks.len() > 0 ==> {
            let st = place_state(blocks, cols);
            if st.0.last().col_end < cols {
                st.1 == st.0.last().row && st.2 == st.0.last().col_end
            } else {
                st.1 == st.0.last().row + 1 && st.2 == 0
            }
        },
    decreases blocks.len(),
{
    if blocks.len() > 0 {
        let rest = blocks.drop_last();
        blocks_wrap_only_when_they_do_not_fit(rest, cols);
        let prev = place_state(rest, cols);
        let st = place_state(blocks, cols);
        let n = prev.0.len();
        assert(st.0 == prev.0.push(st.0[n as int]));
        assert forall|i: int| 0 <= i < rest.len() implies rest[i] == blocks[i] by {}
        assert forall|i: int, j: int|
            #![trigger st.0[i], st.0[j]]
            0 <= i && j == i + 1 && j < st.0.len() implies {
            &&& st.0[j].row == st.0[i].row <==> st.0[i].col_end + span_of(blocks[j], cols) <= cols
            &&& st.0[j].row <= st.0[i].row + 1
        } by {
            if j < n {
                assert(st.0[i] == prev.0[i] && st.0[j] == prev.0[j]);
                assert(rest[j] == blocks[j]);
            } else {
                assert(st.0[i] == prev.0[i]);
                assert(prev.0[i] == prev.0.last());
            }
        }
    }
}

/// Assign each block its row and column range in the grid.
fn compute_placements(blocks: &Vec<Block>, cols: usize) -> (r: Vec<Placement>)
    requires
        cols >= 1,
    ensures
        r@ == place_state(blocks@, cols as nat).0,
{
    let mut placements: Vec<Placement> = Vec::new();
    let mut row: usize = 0;
    let mut col: usize = 0;
    let mut idx: usize = 0;
    while idx < blocks.len()
        invariant
            cols >= 1,
            idx <= blocks.len(),
            (placements@, row as nat, col as nat) == place_state(blocks@.take(idx as int), cols as nat),
        decreases blocks.len() - idx,
    {
        proof {
            blocks_fill_rows_left_to_right(blocks@.take(idx as int), cols as nat);
        }
        assert(blocks@.take(idx + 1).drop_last() =~= blocks@.take(idx as int));
        let cs = blocks[idx].col_span;
        let s = if cs < cols { cs } else { cols };
        let span = if s > 1 { s } else { 1 };
        if span > cols - col && col > 0 {
            row += 1;
            col = 0;
        }
        placements.push(Placement { block_idx: idx, row, col_start: col, col_end: col + span });
        if span >= cols - col {
            row += 1;
            col = 0;
        } else {
            col += span;
        }
        idx += 1;
    }
    assert(blocks@.take(blocks.len() as int) =~= blocks@);
    placements
}

} // verus!

verus! {

/// Per-column width that a label of width `lw` spanning `span` columns needs:
/// the label minus the gaps and walls absorbed between the spanned columns,
/// divided evenly (rounding up), at least `MIN_CELL_INNER`.
pub open spec fn needed_per_col(lw: nat, span: nat) -> nat {
    let rest = sat_sub(lw, ((span - 1) * (COL_GAP + 2)) as nat);
    let q = rest / span + (if rest % span != 0 { 1nat } else { 0nat });
    if q > MIN_CELL_INNER { q } else { MIN_CELL_INNER as nat }
}

/// Column widths after accounting for one placed label of width `lw`.
pub open spec fn widen(ws: Seq<usize>, p: Placement, lw: usize) -> Seq<usize> {
    let span = (p.col_end - p.col_start) as nat;
    if span == 1 {
        ws.update(p.col_start as int, if ws[p.col_start as int] > lw { ws[p.col_start as int] } else { lw })
    } else {
        let need = needed_per_col(lw as nat, span);
        Seq::new(
            ws.len(),
            |c: int|
                if p.col_start <= c < p.col_end && (ws[c] as nat) < need {
                    need as usize
                } else {
                    ws[c]
                },
        )
    }
}

/// Natural width of every column: `MIN_CELL_INNER`, widened by each placed label.
pub open spec fn natural_col_widths(blocks: Seq<Block>, ps: Seq<Placement>, cols: nat) -> Seq<usize>
    decreases ps.len(),
{
    if ps.len() == 0 {
        Seq::new(cols, |_c: int| MIN_CELL_INNER)
    } else {
        widen(
            natural_col_widths(blocks, ps.drop_last(), cols),
            ps.last(),
            unicode_str_width(text_of(blocks[ps.last().block_idx as int])),
        )
    }
}

/// Compute the natural content width of each column from the block labels.
fn compute_col_widths(blocks: &Vec<Block>, placements: &Vec<Placement>, cols: usize) -> (r: Vec<usize>)
    requires
        placements_ok(placements@, blocks@, cols as nat),
    ensures
        r@ == natural_col_widths(blocks@, placements@, cols as nat),
        r@.len() == cols,
{
    let mut col_widths: Vec<usize> = Vec::new();
    let mut c: usize = 0;
    while c < cols
        invariant
            c <= cols,
            col_widths@ == Seq::new(c as nat, |_c: int| MIN_CELL_INNER),
        decreases cols - c,
    {
        col_widths.push(MIN_CELL_INNER);
        c += 1;
        assert(col_widths@ =~= Seq::new(c as nat, |_c: int| MIN_CELL_INNER));
    }
    let mut k: usize = 0;
    while k < placements.len()
        invariant
            k <= placements.len(),
            placements_ok(placements@, blocks@, cols as nat),
            col_widths@ == natural_col_widths(blocks@, placements@.take(k as int), cols as nat),
            col_widths@.len() == cols,
        decreases placements.len() - k,
    {
        assert(placements@.take(k + 1).drop_last() =~= placements@.take(k as int));
        let p = placements[k];
        assert(p == placements@[k as int]);
        let lw = str_width(blocks[p.block_idx].display_text());
        let span = p.col_end - p.col_start;
        let ghost before = col_widths@;
        if span == 1 {
            let cur = col_widths[p.col_start];
            col_widths.set(p.col_start, if cur > lw { cur } else { lw });
        } else {
            let gap_absorbed: usize = if span - 1 <= usize::MAX / 3 { (span - 1) * (COL_GAP + 2) } else { usize::MAX };
            let rest = lw.saturating_sub(gap_absorbed);
            let q = rest / span + if rest % span != 0 { 1 } else { 0 };
            let need = if q > MIN_CELL_INNER { q } else { MIN_CELL_INNER };
            assert(need == needed_per_col(lw as nat, span as nat)) by {
                if span - 1 > usize::MAX / 3 {
                    assert((span - 1) * 3 > lw) by (nonlinear_arith)
                        requires span - 1 > usize::MAX / 3, lw <= usize::MAX;
                }
            }
            let mut c: usize = p.col_start;
            while c < p.col_end
                invariant
                    p.col_start <= c <= p.col_end <= cols,
                    col_widths@.len() == cols,
                    forall|j: int|
                        0 <= j < cols ==> #[trigger] col_widths@[j] == (if p.col_start <= j < c && (before[j] as nat)
                            < need {
                            need
                        } else {
                            before[j]
                        }),
                decreases p.col_end - c,
            {
                let cur = col_widths[c];
                if cur < need {
                    col_widths.set(c, need);
                }
                c += 1;
            }
        }
        k += 1;
        assert(col_widths@ =~= natural_col_widths(blocks@, placements@.take(k as int), cols as nat));
    }
    assert(placements@.take(placements.len() as int) =~= placements@);
    col_widths
}

} // verus!

verus! {

/// Non-content width of a grid of `cols` columns: two walls per column plus
/// the gaps between columns (capped at `usize::MAX`).
pub open spec fn overhead_of(cols: nat) -> nat {
    if cols == 0 {
        0
    } else {
        sat_add(sat_add(cols, cols), sat_sub(cols, 1))
    }
}

/// Sum of widths, capped at `usize::MAX`.
pub open spec fn width_sum(ws: Seq<usize>) -> nat
    decreases ws.len(),
{
    if ws.len() == 0 {
        0
    } else {
        sat_add(width_sum(ws.drop_last()), ws.last() as nat)
    }
}

/// Total width of the rendered grid (capped at `usize::MAX`).
pub open spec fn grid_width(ws: Seq<usize>, cols: nat) -> nat {
    sat_add(overhead_of(cols), width_sum(ws.take(if cols < ws.len() { cols as int } else { ws.len() as int })))
}

/// The non-content overhead of a grid: two walls per column plus the gaps.
fn grid_overhead(cols: usize) -> (r: usize)
    ensures
        r == overhead_of(cols as nat),
{
    if cols == 0 {
        return 0;
    }
    cols.saturating_add(cols).saturating_add(cols - 1)
}

/// The total outer width of the rendered grid, in characters.
fn grid_natural_width(col_widths: &Vec<usize>, cols: usize) -> (r: usize)
    ensures
        r == grid_width(col_widths@, cols as nat),
{
    let n = if cols < col_widths.len() { cols } else { col_widths.len() };
    let mut sum: usize = 0;
    let mut i: usize = 0;
    while i < n
        invariant
            i <= n <= col_widths.len(),
            sum == width_sum(col_widths@.take(i as int)),
        decreases n - i,
    {
        assert(col_widths@.take(i + 1).drop_last() =~= col_widths@.take(i as int));
        sum = sum.saturating_add(col_widths[i]);
        i += 1;
    }
    grid_overhead(cols).saturating_add(sum)
}

/// Largest width (`MIN_CELL_INNER` for none).
pub open spec fn widest(ws: Seq<usize>) -> usize
    decreases ws.len(),
{
    if ws.len() == 0 {
        MIN_CELL_INNER
    } else if ws.len() == 1 {
        ws[0]
    } else {
        let m = widest(ws.drop_last());
        if ws.last() > m { ws.last() } else { m }
    }
}

/// Index of the first element equal to `v` (the length when absent).
pub open spec fn first_index_of(ws: Seq<usize>, v: usize) -> nat
    decreases ws.len(),
{
    if ws.len() == 0 {
        0
    } else if ws[0] == v {
        0
    } else {
        1 + first_index_of(ws.drop_first(), v)
    }
}

/// One shrinking step: when the grid is too wide and a column is wider than
/// the minimum, the first of the widest columns loses one column of width.
pub open spec fn shrink_step(ws: Seq<usize>, budget: nat, cols: nat) -> Seq<usize> {
    let m = widest(ws);
    if grid_width(ws, cols) <= budget || m <= MIN_CELL_INNER {
        ws
    } else {
        let i = first_index_of(ws, m);
        if i < ws.len() {
            ws.update(i as int, (m - 1) as usize)
        } else {
            ws
        }
    }
}

/// The widths after `k` shrinking steps.
pub open spec fn shrink_steps(ws: Seq<usize>, budget: nat, cols: nat, k: nat) -> Seq<usize>
    decreases k,
{
    if k == 0 {
        ws
    } else {
        shrink_step(shrink_steps(ws, budget, cols, (k - 1) as nat), budget, cols)
    }
}

/// Total of the widths (without capping).
pub open spec fn inner_total(ws: Seq<usize>) -> nat
    decreases ws.len(),
{
    if ws.len() == 0 {
        0
    } else {
        inner_total(ws.drop_last()) + ws.last() as nat
    }
}

/// Column widths fitted to the optional budget: unchanged without a budget
/// or when the grid already fits, else the widest column is narrowed one
/// cell at a time until the grid fits or every column is at the minimum
/// (each step removes one cell, so the total width bounds the steps).
pub open spec fn fitted_col_widths(ws: Seq<usize>, max_width: Option<usize>, cols: nat) -> Seq<usize> {
    match max_width {
        None => ws,
        Some(budget) => if grid_width(ws, cols) <= budget || width_sum(ws) == 0 {
            ws
        } else {
            shrink_steps(ws, budget as nat, cols, inner_total(ws))
        },
    }
}

proof fn lemma_total_update(ws: Seq<usize>, i: int, v: usize)
    requires
        0 <= i < ws.len(),
    ensures
        inner_total(ws.update(i, v)) + ws[i] == inner_total(ws) + v,
    decreases ws.len(),
{
    let u = ws.update(i, v);
    if i == ws.len() - 1 {
        assert(u.drop_last() =~= ws.drop_last());
    } else {
        lemma_total_update(ws.drop_last(), i, v);
        assert(u.drop_last() =~= ws.drop_last().update(i, v));
    }
}

proof fn lemma_elem_le_total(ws: Seq<usize>, i: int)
    requires
        0 <= i < ws.len(),
    ensures
        ws[i] <= inner_total(ws),
    decreases ws.len(),
{
    if i < ws.len() - 1 {
        lemma_elem_le_total(ws.drop_last(), i);
    }
}

/// A step that changes the widths removes exactly one cell; a step that
/// changes nothing leaves a grid that fits or has only minimal columns.
proof fn lemma_shrink_step(ws: Seq<usize>, budget: nat, cols: nat)
    ensures
        shrink_step(ws, budget, cols) != ws ==> inner_total(shrink_step(ws, budget, cols)) + 1 == inner_total(ws),
        shrink_step(ws, budget, cols) == ws ==> grid_width(ws, cols) <= budget || widest(ws) <= MIN_CELL_INNER,
{
    let m = widest(ws);
    if !(grid_width(ws, cols) <= budget || m <= MIN_CELL_INNER) {
        if ws.len() > 0 {
            lemma_widest_ge(ws, 0);
            let j = choose|j: int| 0 <= j < ws.len() && ws[j] == m;
            lemma_first_index(ws, m, j);
            let i = first_index_of(ws, m);
            lemma_total_update(ws, i as int, (m - 1) as usize);
            assert(ws.update(i as int, (m - 1) as usize)[i as int] != ws[i as int]);
        } else {
            assert(m == MIN_CELL_INNER);
        }
    }
}

proof fn lemma_shrink_progress(ws: Seq<usize>, budget: nat, cols: nat, k: nat)
    ensures
        shrink_step(shrink_steps(ws, budget, cols, k), budget, cols) == shrink_steps(ws, budget, cols, k)
            || inner_total(shrink_steps(ws, budget, cols, k)) + k == inner_total(ws),
    decreases k,
{
    if k > 0 {
        let prev = shrink_steps(ws, budget, cols, (k - 1) as nat);
        lemma_shrink_progress(ws, budget, cols, (k - 1) as nat);
        lemma_shrink_step(prev, budget, cols);
        if shrink_step(prev, budget, cols) == prev {
            assert(shrink_steps(ws, budget, cols, k) == prev);
        }
    }
}

proof fn lemma_all_zero_minimal(ws: Seq<usize>)
    requires
        width_sum(ws) == 0,
    ensures
        widest(ws) <= MIN_CELL_INNER,
    decreases ws.len(),
{
    if ws.len() > 1 {
        lemma_all_zero_minimal(ws.drop_last());
    }
}

/// Fitting keeps its promise: with a budget, the fitted grid is no wider
/// than the budget, unless every column is already at the minimum width.
pub proof fn fitted_widths_fit_or_are_minimal(ws: Seq<usize>, budget: usize, cols: nat)
    ensures
        grid_width(fitted_col_widths(ws, Some(budget), cols), cols) <= budget
            || widest(fitted_col_widths(ws, Some(budget), cols)) <= MIN_CELL_INNER,
{
    if grid_width(ws, cols) <= budget {
    } else if width_sum(ws) == 0 {
        lemma_all_zero_minimal(ws);
    } else {
        let n = inner_total(ws);
        let f = shrink_steps(ws, budget as nat, cols, n);
        lemma_shrink_progress(ws, budget as nat, cols, n);
        lemma_shrink_step(f, budget as nat, cols);
        if shrink_step(f, budget as nat, cols) != f {
            assert(inner_total(f) == 0);
            let m = widest(f);
            assert(f.len() > 0) by {
                if f.len() == 0 {
                    assert(m == MIN_CELL_INNER);
                }
            }
            lemma_widest_ge(f, 0);
            let j = choose|j: int| 0 <= j < f.len() && f[j] == m;
            lemma_elem_le_total(f, j);
        }
    }
}

proof fn lemma_shrink_fixed(ws: Seq<usize>, budget: nat, cols: nat, k: nat, j: nat)
    requires
        j <= k,
        shrink_step(shrink_steps(ws, budget, cols, j), budget, cols) == shrink_steps(ws, budget, cols, j),
    ensures
        shrink_steps(ws, budget, cols, k) == shrink_steps(ws, budget, cols, j),
    decreases k - j,
{
    if k > j {
        lemma_shrink_fixed(ws, budget, cols, (k - 1) as nat, j);
    }
}

proof fn lemma_widest_ge(ws: Seq<usize>, i: int)
    requires
        0 <= i < ws.len(),
    ensures
        ws[i] <= widest(ws),
        ws.len() > 0 ==> exists|j: int| 0 <= j < ws.len() && ws[j] == widest(ws),
    decreases ws.len(),
{
    if ws.len() > 1 {
        if i < ws.len() - 1 {
            lemma_widest_ge(ws.drop_last(), i);
        } else {
            lemma_widest_ge(ws.drop_last(), 0);
        }
        let w = widest(ws.drop_last());
        let j = choose|j: int| 0 <= j < ws.drop_last().len() && ws.drop_last()[j] == w;
        assert(ws[j] == w);
    } else {
        assert(ws[0] == widest(ws));
    }
}

proof fn lemma_first_index(ws: Seq<usize>, v: usize, j: int)
    requires
        0 <= j < ws.len(),
        ws[j] == v,
    ensures
        first_index_of(ws, v) <= j,
        ws[first_index_of(ws, v) as int] == v,
        forall|k: int| 0 <= k < first_index_of(ws, v) ==> ws[k] != v,
    decreases ws.len(),
{
    if ws[0] != v {
        let t = ws.drop_first();
        lemma_first_index(t, v, j - 1);
        assert forall|k: int| 0 <= k < first_index_of(ws, v) implies ws[k] != v by {
            if k > 0 {
                assert(ws[k] == t[k - 1]);
            }
        }
    }
}

/// Largest of the widths (`MIN_CELL_INNER` for none).
fn widest_width(ws: &Vec<usize>) -> (r: usize)
    ensures
        r == widest(ws@),
{
    if ws.len() == 0 {
        return MIN_CELL_INNER;
    }
    let mut m = ws[0];
    let mut i: usize = 1;
    assert(ws@.take(1) =~= seq![ws@[0]]);
    while i < ws.len()
        invariant
            1 <= i <= ws.len(),
            m == widest(ws@.take(i as int)),
        decreases ws.len() - i,
    {
        assert(ws@.take(i + 1).drop_last() =~= ws@.take(i as int));
        if ws[i] > m {
            m = ws[i];
        }
        i += 1;
    }
    assert(ws@.take(ws.len() as int) =~= ws@);
    m
}

/// Shrink column widths so the total grid width fits within `max_width`.
fn apply_max_width(col_widths: Vec<usize>, max_width: Option<usize>, cols: usize) -> (r: Vec<usize>)
    ensures
        r@ == fitted_col_widths(col_widths@, max_width, cols as nat),
{
    let mut col_widths = col_widths;
    let budget = match max_width {
        None => {
            return col_widths;
        },
        Some(b) => b,
    };
    let natural = grid_natural_width(&col_widths, cols);
    if natural <= budget {
        return col_widths;
    }
    let mut total_inner: usize = 0;
    let mut t: usize = 0;
    while t < col_widths.len()
        invariant
            t <= col_widths.len(),
            total_inner == width_sum(col_widths@.take(t as int)),
        decreases col_widths.len() - t,
    {
        assert(col_widths@.take(t + 1).drop_last() =~= col_widths@.take(t as int));
        total_inner = total_inner.saturating_add(col_widths[t]);
        t += 1;
    }
    assert(col_widths@.take(col_widths.len() as int) =~= col_widths@);
    if total_inner == 0 {
        return col_widths;
    }
    let ghost ws0 = col_widths@;
    let ghost mut k: nat = 0;
    loop
        invariant
            col_widths@ == shrink_steps(ws0, budget as nat, cols as nat, k),
            k + inner_total(col_widths@) == inner_total(ws0),
        ensures
            col_widths@ == shrink_steps(ws0, budget as nat, cols as nat, inner_total(ws0)),
        decreases inner_total(col_widths@),
    {
        let current = grid_natural_width(&col_widths, cols);
        let max_w = widest_width(&col_widths);
        if current <= budget || max_w <= MIN_CELL_INNER {
            proof {
                lemma_shrink_fixed(ws0, budget as nat, cols as nat, inner_total(ws0), k);
            }
            break;
        }
        let ghost before = col_widths@;
        proof {
            if before.len() > 0 {
                lemma_widest_ge(before, 0);
                let j = choose|j: int| 0 <= j < before.len() && before[j] == max_w;
                lemma_first_index(before, max_w, j);
            }
        }
        let mut i: usize = 0;
        while i < col_widths.len()
            invariant
                col_widths@ == before,
                i <= before.len(),
                forall|k: int| 0 <= k < i ==> before[k] != max_w,
            ensures
                i <= before.len(),
                forall|k: int| 0 <= k < i ==> before[k] != max_w,
                i < before.len() ==> before[i as int] == max_w,
            decreases col_widths.len() - i,
        {
            if col_widths[i] == max_w {
                break;
            }
            i += 1;
        }
        if i < col_widths.len() {
            col_widths.set(i, max_w - 1);
        }
        proof {
            if before.len() > 0 {
                lemma_widest_ge(before, 0);
                let j = choose|j: int| 0 <= j < before.len() && before[j] == max_w;
                lemma_first_index(before, max_w, j);
            }
            assert(i == first_index_of(before, max_w));
            lemma_shrink_step(before, budget as nat, cols as nat);
            assert(col_widths@ == shrink_step(before, budget as nat, cols as nat));
            assert(col_widths@ != before) by {
                assert(before.len() > 0);
                assert(col_widths@[i as int] != before[i as int]);
            }
            k = k + 1;
        }
    }
    col_widths
}

/// Inner width of a block spanning columns `col_start..col_end`: the spanned
/// widths plus the walls and gaps absorbed between them (capped at `usize::MAX`).
pub open spec fn spanned_width(ws: Seq<usize>, col_start: nat, col_end: nat) -> nat {
    let end = if col_end < ws.len() { col_end } else { ws.len() };
    let base = width_sum(ws.subrange(col_start as int, end as int));
    if col_end - col_start <= 1 {
        base
    } else {
        sat_add(base, ((col_end - col_start - 1) * (COL_GAP + 2)) as nat)
    }
}

/// The inner width of a block spanning columns `col_start..col_end`.
fn spanned_inner_width(col_widths: &Vec<usize>, col_start: usize, col_end: usize) -> (r: usize)
    requires
        col_start < col_end,
        col_start <= col_widths@.len(),
    ensures
        r == spanned_width(col_widths@, col_start as nat, col_end as nat),
{
    let span = col_end - col_start;
    let end = if col_end < col_widths.len() { col_end } else { col_widths.len() };
    let ghost sub = col_widths@.subrange(col_start as int, end as int);
    let mut base: usize = 0;
    let mut i: usize = col_start;
    while i < end
        invariant
            col_start <= i <= end <= col_widths@.len(),
            sub == col_widths@.subrange(col_start as int, end as int),
            base == width_sum(sub.take(i - col_start)),
        decreases end - i,
    {
        assert(sub.take(i - col_start + 1).drop_last() =~= sub.take(i - col_start));
        base = base.saturating_add(col_widths[i]);
        i += 1;
    }
    assert(sub.take(end - col_start) =~= sub);
    if span <= 1 {
        base
    } else {
        let absorbed: usize = if span - 1 <= usize::MAX / 3 { (span - 1) * (COL_GAP + 2) } else { usize::MAX };
        proof {
            if span - 1 > usize::MAX / 3 {
                assert((span - 1) * 3 > usize::MAX) by (nonlinear_arith)
                    requires span - 1 > usize::MAX / 3;
            }
        }
        base.saturating_add(absorbed)
    }
}

} // verus!

verus! {

proof fn lemma_fitted_len(ws: Seq<usize>, max_width: Option<usize>, cols: nat)
    ensures
        fitted_col_widths(ws, max_width, cols).len() == ws.len(),
{
    if let Some(b) = max_width {
        lemma_shrink_len(ws, b as nat, cols, inner_total(ws));
    }
}

proof fn lemma_shrink_len(ws: Seq<usize>, budget: nat, cols: nat, k: nat)
    ensures
        shrink_steps(ws, budget, cols, k).len() == ws.len(),
    decreases k,
{
    if k > 0 {
        lemma_shrink_len(ws, budget, cols, (k - 1) as nat);
    }
}

/// One line of a box row: 0 = top borders, 1 = labels, 2 = bottom borders.
pub open spec fn box_piece(kind: int, b: Block, iw: nat) -> Seq<char> {
    if kind == 0 {
        box_top(iw)
    } else if kind == 1 {
        box_label(text_of(b), iw)
    } else {
        box_bottom(iw)
    }
}

/// The placements of grid row `r`, in placement order.
pub open spec fn row_of(ps: Seq<Placement>, r: nat) -> Seq<Placement>
    decreases ps.len(),
{
    if ps.len() == 0 {
        Seq::empty()
    } else if ps.last().row == r {
        row_of(ps.drop_last(), r).push(ps.last())
    } else {
        row_of(ps.drop_last(), r)
    }
}

/// Spaces standing for the empty columns before entry `k` of a row.
pub open spec fn gap_before(e: Seq<Placement>, k: int) -> Seq<char> {
    let cursor: nat = if k == 0 { 0 } else { e[k - 1].col_end as nat };
    if e[k].col_start > cursor {
        rep(' ', ((e[k].col_start - cursor) * (MIN_CELL_INNER + 2 + COL_GAP)) as nat)
    } else {
        Seq::empty()
    }
}

/// The first `k` pieces of one line of a box row, each followed by a gap.
pub open spec fn row_line(kind: int, e: Seq<Placement>, blocks: Seq<Block>, ws: Seq<usize>, k: nat) -> Seq<char>
    decreases k,
{
    if k == 0 {
        Seq::empty()
    } else {
        let p = e[k - 1];
        row_line(kind, e, blocks, ws, (k - 1) as nat) + gap_before(e, k - 1) + box_piece(
            kind,
            blocks[p.block_idx as int],
            spanned_width(ws, p.col_start as nat, p.col_end as nat),
        ) + rep(' ', COL_GAP as nat)
    }
}

/// The three lines (trailing white space trimmed) of grid row `r`.
pub open spec fn grid_row_text(blocks: Seq<Block>, ps: Seq<Placement>, ws: Seq<usize>, r: nat) -> Seq<char> {
    let e = row_of(ps, r);
    trim_end_ws(row_line(0, e, blocks, ws, e.len())) + seq!['\n'] + trim_end_ws(row_line(1, e, blocks, ws, e.len()))
        + seq!['\n'] + trim_end_ws(row_line(2, e, blocks, ws, e.len())) + seq!['\n']
}

/// Number of grid rows: one more than the largest row index (0 for none).
pub open spec fn row_count(ps: Seq<Placement>) -> nat
    decreases ps.len(),
{
    if ps.len() == 0 {
        0
    } else {
        let r = row_count(ps.drop_last());
        if ps.last().row + 1 > r { (ps.last().row + 1) as nat } else { r }
    }
}

/// The first `k` grid rows, separated by blank lines.
pub open spec fn grid_rows_text(blocks: Seq<Block>, ps: Seq<Placement>, ws: Seq<usize>, rc: nat, k: nat) -> Seq<char>
    decreases k,
{
    if k == 0 {
        Seq::empty()
    } else {
        grid_rows_text(blocks, ps, ws, rc, (k - 1) as nat) + grid_row_text(blocks, ps, ws, (k - 1) as nat) + (if k
            < rc {
            seq!['\n']
        } else {
            Seq::empty()
        })
    }
}

/// One line of the edge summary: `  src ──► tgt`, the label in brackets when
/// present, and a line feed.
pub open spec fn edge_line(e: BlockEdge) -> Seq<char> {
    seq![' ', ' '] + e.source@ + seq![' ', '\u{2500}', '\u{2500}', '\u{25BA}', ' '] + e.target@ + (match e.label {
        Some(l) => seq![' ', '['] + l@ + seq![']'],
        None => Seq::empty(),
    }) + seq!['\n']
}

/// The summary lines of a sequence of edges, in order.
pub open spec fn edge_lines(edges: Seq<BlockEdge>) -> Seq<char>
    decreases edges.len(),
{
    if edges.len() == 0 {
        Seq::empty()
    } else {
        edge_lines(edges.drop_last()) + edge_line(edges.last())
    }
}

/// The edge summary: empty without edges, else an `Edges:` header and one
/// line per edge, without trailing line feeds.
pub open spec fn edge_summary(edges: Seq<BlockEdge>) -> Seq<char> {
    if edges.len() == 0 {
        Seq::empty()
    } else {
        trim_newlines("Edges:\n"@ + edge_lines(edges))
    }
}

/// The grid columns used for a diagram: its column count, at least one.
pub open spec fn grid_cols(diag: BlockDiagram) -> nat {
    if diag.columns > 1 { diag.columns as nat } else { 1 }
}

/// Column widths used to draw a diagram.
pub open spec fn drawn_col_widths(diag: BlockDiagram, max_width: Option<usize>) -> Seq<usize> {
    let cols = grid_cols(diag);
    let ps = place_state(diag.blocks@, cols).0;
    fitted_col_widths(natural_col_widths(diag.blocks@, ps, cols), max_width, cols)
}

/// Rendered text of a block diagram: the box grid (rows separated by blank
/// lines) and the edge summary after a blank line, without trailing line
/// feeds; only the edge summary when there are no blocks.
pub open spec fn block_diagram_text(diag: BlockDiagram, max_width: Option<usize>) -> Seq<char> {
    let es = edge_summary(diag.edges@);
    if diag.blocks@.len() == 0 {
        es
    } else {
        let ps = place_state(diag.blocks@, grid_cols(diag)).0;
        let ws = drawn_col_widths(diag, max_width);
        let rc = row_count(ps);
        let grid = grid_rows_text(diag.blocks@, ps, ws, rc, rc);
        trim_newlines(if es.len() > 0 { grid + seq!['\n'] + es } else { grid })
    }
}

/// Render the directed-edge summary (empty when there are no edges).
fn render_edge_summary(edges: &Vec<BlockEdge>) -> (r: Vec<char>)
    ensures
        r@ == edge_summary(edges@),
{
    if edges.len() == 0 {
        return Vec::new();
    }
    let mut out = chars_of("Edges:\n");
    let ghost header = out@;
    let mut i: usize = 0;
    while i < edges.len()
        invariant
            i <= edges.len(),
            header == "Edges:\n"@,
            out@ == header + edge_lines(edges@.take(i as int)),
        decreases edges.len() - i,
    {
        assert(edges@.take(i + 1).drop_last() =~= edges@.take(i as int));
        let edge = &edges[i];
        let ghost before = out@;
        out.push(' ');
        out.push(' ');
        let src = chars_of(edge.source.as_str());
        push_all(&mut out, &src);
        out.push(' ');
        out.push('\u{2500}');
        out.push('\u{2500}');
        out.push('\u{25BA}');
        out.push(' ');
        let tgt = chars_of(edge.target.as_str());
        push_all(&mut out, &tgt);
        match &edge.label {
            Some(l) => {
                out.push(' ');
                out.push('[');
                let lc = chars_of(l.as_str());
                push_all(&mut out, &lc);
                out.push(']');
            },
            None => {},
        }
        out.push('\n');
        assert(out@ =~= before + edge_line(edges@[i as int]));
        i += 1;
        assert(out@ =~= header + edge_lines(edges@.take(i as int)));
    }
    assert(edges@.take(edges.len() as int) =~= edges@);
    pop_newlines(&mut out);
    out
}

} // verus!

verus! {

/// Placements that index existing blocks and columns.
pub open spec fn entries_in_range(e: Seq<Placement>, nblocks: nat, ncols: nat) -> bool {
    forall|i: int|
        0 <= i < e.len() ==> (#[trigger] e[i]).block_idx < nblocks && e[i].col_start < e[i].col_end && e[i].col_end
            <= ncols
}

proof fn lemma_row_of_in_range(ps: Seq<Placement>, r: nat, nblocks: nat, ncols: nat)
    requires
        entries_in_range(ps, nblocks, ncols),
    ensures
        entries_in_range(row_of(ps, r), nblocks, ncols),
        row_of(ps, r).len() <= ps.len(),
    decreases ps.len(),
{
    if ps.len() > 0 {
        let rest = ps.drop_last();
        assert forall|i: int| 0 <= i < rest.len() implies (#[trigger] rest[i]).block_idx < nblocks
            && rest[i].col_start < rest[i].col_end && rest[i].col_end <= ncols by {
            assert(rest[i] == ps[i]);
        }
        lemma_row_of_in_range(rest, r, nblocks, ncols);
    }
}

/// The placements of one grid row.
fn row_entries(ps: &Vec<Placement>, r: usize) -> (e: Vec<Placement>)
    ensures
        e@ == row_of(ps@, r as nat),
{
    let mut e: Vec<Placement> = Vec::new();
    let mut i: usize = 0;
    while i < ps.len()
        invariant
            i <= ps.len(),
            e@ == row_of(ps@.take(i as int), r as nat),
        decreases ps.len() - i,
    {
        assert(ps@.take(i + 1).drop_last() =~= ps@.take(i as int));
        if ps[i].row == r {
            e.push(ps[i]);
        }
        i += 1;
    }
    assert(ps@.take(ps.len() as int) =~= ps@);
    e
}

/// Build one line (0 = top, 1 = labels, 2 = bottom) of a grid row, untrimmed.
fn build_row_line(kind: u8, e: &Vec<Placement>, blocks: &Vec<Block>, ws: &Vec<usize>) -> (r: Vec<char>)
    requires
        kind <= 2,
        entries_in_range(e@, blocks@.len(), ws@.len()),
    ensures
        r@ == row_line(kind as int, e@, blocks@, ws@, e@.len()),
{
    let mut line: Vec<char> = Vec::new();
    let mut cursor: usize = 0;
    let mut k: usize = 0;
    while k < e.len()
        invariant
            k <= e.len(),
            kind <= 2,
            entries_in_range(e@, blocks@.len(), ws@.len()),
            line@ == row_line(kind as int, e@, blocks@, ws@, k as nat),
            cursor == (if k == 0 { 0 } else { e@[k - 1].col_end }),
        decreases e.len() - k,
    {
        let p = e[k];
        assert(p == e@[k as int]);
        let ghost before = line@;
        if p.col_start > cursor {
            let mut g: usize = 0;
            while g < p.col_start - cursor
                invariant
                    g <= p.col_start - cursor,
                    line@ == before + rep(' ', (g * (MIN_CELL_INNER + 2 + COL_GAP)) as nat),
                decreases p.col_start - cursor - g,
            {
                let ghost prev_len = (g * 4) as nat;
                push_rep(&mut line, ' ', MIN_CELL_INNER + 2 + COL_GAP);
                g += 1;
                assert(g * 4 == prev_len + 4);
                assert(rep(' ', prev_len) + rep(' ', 4) =~= rep(' ', (g * 4) as nat));
                assert(line@ =~= before + rep(' ', (g * (MIN_CELL_INNER + 2 + COL_GAP)) as nat));
            }
        }
        assert(line@ =~= before + gap_before(e@, k as int));
        let ghost mid = line@;
        let inner_w = spanned_inner_width(ws, p.col_start, p.col_end);
        if kind == 0 {
            push_box_top(&mut line, inner_w);
        } else if kind == 1 {
            push_box_label(&mut line, blocks[p.block_idx].display_text(), inner_w);
        } else {
            push_box_bottom(&mut line, inner_w);
        }
        push_rep(&mut line, ' ', COL_GAP);
        cursor = p.col_end;
        k += 1;
        assert(line@ =~= row_line(kind as int, e@, blocks@, ws@, k as nat));
    }
    line
}

/// Append the three trimmed lines of one grid row.
fn push_grid_row(out: &mut Vec<char>, blocks: &Vec<Block>, ps: &Vec<Placement>, ws: &Vec<usize>, r: usize)
    requires
        entries_in_range(ps@, blocks@.len(), ws@.len()),
    ensures
        final(out)@ == old(out)@ + grid_row_text(blocks@, ps@, ws@, r as nat),
{
    let ghost start = out@;
    let e = row_entries(ps, r);
    proof {
        lemma_row_of_in_range(ps@, r as nat, blocks@.len(), ws@.len());
    }
    let mut top = build_row_line(0, &e, blocks, ws);
    pop_whitespace(&mut top);
    push_all(out, &top);
    out.push('\n');
    let mut mid = build_row_line(1, &e, blocks, ws);
    pop_whitespace(&mut mid);
    push_all(out, &mid);
    out.push('\n');
    let mut bot = build_row_line(2, &e, blocks, ws);
    pop_whitespace(&mut bot);
    push_all(out, &bot);
    out.push('\n');
    assert(final(out)@ =~= start + grid_row_text(blocks@, ps@, ws@, r as nat));
}

/// Number of grid rows used by the placements.
fn count_rows(placements: &Vec<Placement>, nblocks: usize) -> (r: usize)
    requires
        placements@.len() == nblocks,
        forall|i: int| 0 <= i < placements@.len() ==> (#[trigger] placements@[i]).row <= i,
    ensures
        r == row_count(placements@),
{
    let mut row_count_v: usize = 0;
    let mut i: usize = 0;
    while i < placements.len()
        invariant
            i <= placements.len() == nblocks,
            forall|i: int| 0 <= i < placements@.len() ==> (#[trigger] placements@[i]).row <= i,
            row_count_v == row_count(placements@.take(i as int)),
        decreases placements.len() - i,
    {
        assert(placements@.take(i + 1).drop_last() =~= placements@.take(i as int));
        assert(placements@[i as int].row <= i);
        if placements[i].row + 1 > row_count_v {
            row_count_v = placements[i].row + 1;
        }
        i += 1;
    }
    assert(placements@.take(placements.len() as int) =~= placements@);
    row_count_v
}

/// Draw the first `rc` grid rows, separated by blank lines.
fn render_grid(blocks: &Vec<Block>, placements: &Vec<Placement>, ws: &Vec<usize>, rc: usize) -> (out: Vec<char>)
    requires
        entries_in_range(placements@, blocks@.len(), ws@.len()),
    ensures
        out@ == grid_rows_text(blocks@, placements@, ws@, rc as nat, rc as nat),
{
    let mut out: Vec<char> = Vec::new();
    let mut row: usize = 0;
    while row < rc
        invariant
            row <= rc,
            entries_in_range(placements@, blocks@.len(), ws@.len()),
            out@ == grid_rows_text(blocks@, placements@, ws@, rc as nat, row as nat),
        decreases rc - row,
    {
        push_grid_row(&mut out, blocks, placements, ws, row);
        if row + 1 < rc {
            out.push('\n');
        }
        row += 1;
        assert(out@ =~= grid_rows_text(blocks@, placements@, ws@, rc as nat, row as nat));
    }
    out
}

/// Render a block diagram to Unicode box-drawing text.
///
/// `max_width` is an optional column budget: column widths are shrunk (and
/// labels truncated with `…`) so that the grid fits it where possible.
pub fn render(diag: &BlockDiagram, max_width: Option<usize>) -> (r: String)
    ensures
        r@ == block_diagram_text(*diag, max_width),
{
    if diag.blocks.len() == 0 {
        let es = render_edge_summary(&diag.edges);
        return string_from_chars(es.as_slice());
    }
    let cols = if diag.columns > 1 { diag.columns } else { 1 };
    let placements = compute_placements(&diag.blocks, cols);
    proof {
        blocks_fill_rows_left_to_right(diag.blocks@, cols as nat);
    }
    let natural = compute_col_widths(&diag.blocks, &placements, cols);
    let col_inner_widths = apply_max_width(natural, max_width, cols);
    proof {
        lemma_fitted_len(natural_col_widths(diag.blocks@, placements@, cols as nat), max_width, cols as nat);
        assert forall|i: int| 0 <= i < placements@.len() implies (#[trigger] placements@[i]).block_idx
            < diag.blocks@.len() && placements@[i].col_start < placements@[i].col_end && placements@[i].col_end
            <= col_inner_widths@.len() by {}
    }
    let row_count_v = count_rows(&placements, diag.blocks.len());
    let mut out = render_grid(&diag.blocks, &placements, &col_inner_widths, row_count_v);
    let edge_part = render_edge_summary(&diag.edges);
    if edge_part.len() > 0 {
        out.push('\n');
        push_all(&mut out, &edge_part);
    }
    pop_newlines(&mut out);
    string_from_chars(out.as_slice())
}

/// A diagram without blocks draws no box: it renders to its edge summary
/// alone, and to nothing when it has no edges either.
pub proof fn blockless_diagram_renders_edge_summary_only(diag: BlockDiagram, max_width: Option<usize>)
    requires
        diag.blocks@.len() == 0,
    ensures
        block_diagram_text(diag, max_width) == edge_summary(diag.edges@),
        diag.edges@.len() == 0 ==> block_diagram_text(diag, max_width) == Seq::<char>::empty(),
{
}

} // verus!
