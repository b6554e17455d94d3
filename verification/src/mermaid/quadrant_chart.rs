//! Renderer for quadrant charts: a cross of axes on a character canvas with
//! the four quadrant labels, the axis labels and the data points.
//!
//! Mapping a point's fractional coordinates to canvas offsets is floating
//! point arithmetic and is done by the caller (see `geometry` for the spans
//! it scales to); this module places the already-scaled points.

use vstd::prelude::*;
use crate::text::{chars_of, pop_newlines, pop_whitespace, push_all, push_rep, rep, sat_sub, str_width, string_from_chars, trim_end_ws, trim_newlines, unicode_str_width};

verus! {

/// Canvas width when no budget is given.
pub const DEFAULT_WIDTH: usize = 70;

/// Smallest canvas width.
pub const MIN_WIDTH: usize = 30;

/// Number of canvas rows for the chart body.
pub const CANVAS_ROWS: usize = 20;

/// Labels at the two ends of an axis.
pub struct QuadrantAxis {
    pub low: String,
    pub high: String,
}

/// Optional labels of the four quadrants (1 = top right, 2 = top left,
/// 3 = bottom left, 4 = bottom right).
pub struct QuadrantLabels {
    pub q1: Option<String>,
    pub q2: Option<String>,
    pub q3: Option<String>,
    pub q4: Option<String>,
}

/// A data point already scaled to the canvas: which half it lies in along
/// each axis, its offset within that half, and the label drawn after its
/// marker (` Name (x,y)`).
pub struct PlacedPoint {
    pub x_left: bool,
    pub x_offset: usize,
    pub y_top: bool,
    pub y_offset: usize,
    pub label: String,
}

/// A quadrant chart ready to draw.
pub struct QuadrantChart {
    pub title: Option<String>,
    pub x_axis: Option<QuadrantAxis>,
    pub y_axis: Option<QuadrantAxis>,
    pub quadrants: QuadrantLabels,
    pub points: Vec<PlacedPoint>,
}

impl Default for QuadrantChart {
    fn default() -> (r: Self)
        ensures
            r.title is None,
            r.x_axis is None,
            r.y_axis is None,
            r.quadrants.q1 is None && r.quadrants.q2 is None && r.quadrants.q3 is None && r.quadrants.q4 is None,
            r.points@.len() == 0,
    {
        QuadrantChart {
            title: None,
            x_axis: None,
            y_axis: None,
            quadrants: QuadrantLabels { q1: None, q2: None, q3: None, q4: None },
            points: Vec::new(),
        }
    }
}

/// Canvas measurements a caller needs to scale point coordinates.
pub struct QuadrantGeometry {
    /// Width of the canvas in columns.
    pub canvas_width: usize,
    /// Column of the vertical axis.
    pub center_col: usize,
    /// Body row (0-based) of the horizontal axis.
    pub mid_row: usize,
    /// Columns a left-half point offset spans (x in [0, 0.5)).
    pub left_span: usize,
    /// Columns a right-half point offset spans (x in [0.5, 1]).
    pub right_span: usize,
    /// Rows a top-half point offset spans (y in [0.5, 1]).
    pub top_span: usize,
    /// Rows a bottom-half point offset spans (y in [0, 0.5)).
    pub bottom_span: usize,
}

/// Canvas width for a budget: the budget (at least `MIN_WIDTH`), else `DEFAULT_WIDTH`.
pub open spec fn canvas_width_for(max_width: Option<usize>) -> nat {
    match max_width {
        Some(w) => if w > MIN_WIDTH { w as nat } else { MIN_WIDTH as nat },
        None => DEFAULT_WIDTH as nat,
    }
}

/// Canvas measurements for a budget.
pub fn geometry(max_width: Option<usize>) -> (g: QuadrantGeometry)
    ensures
        g.canvas_width == canvas_width_for(max_width),
        g.center_col == g.canvas_width / 2,
        g.mid_row == CANVAS_ROWS / 2,
        g.left_span == sat_sub(g.center_col as nat, 1),
        g.right_span == sat_sub(sat_sub(g.canvas_width as nat, (g.center_col + 2) as nat), 1),
        g.top_span == sat_sub(sat_sub(sat_sub(g.mid_row as nat, 1), 1), 1),
        g.bottom_span == sat_sub(sat_sub(sat_sub(CANVAS_ROWS as nat, (g.mid_row + 1) as nat), 1), 1),
{
    let canvas_width = match max_width {
        Some(w) => if w > MIN_WIDTH { w } else { MIN_WIDTH },
        None => DEFAULT_WIDTH,
    };
    let center_col = canvas_width / 2;
    let mid_row = CANVAS_ROWS / 2;
    let left_cols = center_col.saturating_sub(1);
    let right_cols = canvas_width.saturating_sub(center_col + 2);
    let top_rows = mid_row.saturating_sub(1);
    let bot_rows = CANVAS_ROWS.saturating_sub(mid_row + 1);
    QuadrantGeometry {
        canvas_width,
        center_col,
        mid_row,
        left_span: left_cols,
        right_span: right_cols.saturating_sub(1),
        top_span: top_rows.saturating_sub(1).saturating_sub(1),
        bottom_span: bot_rows.saturating_sub(1).saturating_sub(1),
    }
}

/// Canvas cell `(col, row)` of a placed point: left-half offsets count from
/// column 0, right-half offsets from two columns past the axis; top-half
/// offsets from body row 2, bottom-half offsets from two rows below the
/// axis. The row is then kept off the arrow, label and axis rows.
pub open spec fn point_cell(p: PlacedPoint, center_col: nat, mid_row: nat, rows: nat) -> (nat, nat) {
    let col = if p.x_left { p.x_offset as nat } else { (center_col + 2 + p.x_offset) as nat };
    let grid_row = if p.y_top { (2 + p.y_offset) as nat } else { (mid_row + 2 + p.y_offset) as nat };
    let r1 = if grid_row > 2 { grid_row } else { 2 };
    let r2 = if r1 < rows - 1 { r1 } else { (rows - 1) as nat };
    let safe = if r2 == mid_row + 1 && r2 > 2 {
        (r2 - 1) as nat
    } else if r2 == mid_row + 1 && r2 < rows - 1 {
        r2 + 1
    } else {
        r2
    };
    (col, safe)
}

/// Map a placed point to its `(col, row)` canvas cell (see `point_cell`).
/// A column beyond `usize::MAX` is reported as `usize::MAX` (off the canvas).
pub fn point_to_grid(pt: &PlacedPoint, center_col: usize, mid_row: usize, rows: usize) -> (r: (usize, usize))
    requires
        rows >= 3,
        mid_row + 3 <= rows,
        center_col + 2 <= usize::MAX,
    ensures
        r.1 == point_cell(*pt, center_col as nat, mid_row as nat, rows as nat).1,
        point_cell(*pt, center_col as nat, mid_row as nat, rows as nat).0 <= usize::MAX ==> r.0 == point_cell(
            *pt,
            center_col as nat,
            mid_row as nat,
            rows as nat,
        ).0,
        point_cell(*pt, center_col as nat, mid_row as nat, rows as nat).0 > usize::MAX ==> r.0 == usize::MAX,
{
    let col = if pt.x_left { pt.x_offset } else { (center_col + 2).saturating_add(pt.x_offset) };
    let grid_row = if pt.y_top { pt.y_offset.saturating_add(2) } else { (mid_row + 2).saturating_add(pt.y_offset) };
    let r1 = if grid_row > 2 { grid_row } else { 2 };
    let r2 = if r1 < rows - 1 { r1 } else { rows - 1 };
    let safe_row = if r2 == mid_row + 1 && r2 > 2 {
        r2 - 1
    } else if r2 == mid_row + 1 && r2 < rows - 1 {
        r2 + 1
    } else {
        r2
    };
    (col, safe_row)
}

/// `row` with `text` written from `start_col`, characters at or past
/// `max_col` (or past the row) dropped.
pub open spec fn placed(row: Seq<char>, start_col: nat, text: Seq<char>, max_col: nat) -> Seq<char> {
    Seq::new(
        row.len(),
        |c: int|
            if start_col <= c < max_col && c - start_col < text.len() {
                text[c - start_col]
            } else {
                row[c]
            },
    )
}

/// `row` with `text` written right-aligned so that its last character is at
/// `end_col` (starting at column 0 when it is longer), characters past the
/// row dropped.
pub open spec fn placed_right(row: Seq<char>, end_col: nat, text: Seq<char>) -> Seq<char> {
    let start = sat_sub(end_col + 1, text.len());
    Seq::new(row.len(), |c: int| if start <= c < start + text.len() { text[c - start] } else { row[c] })
}

/// Write `text` into `row` from `start_col`, dropping characters at or past `max_col`.
fn place_text(row: &mut Vec<char>, start_col: usize, text: &Vec<char>, max_col: usize)
    ensures
        final(row)@ == placed(old(row)@, start_col as nat, text@, max_col as nat),
{
    let ghost orig = row@;
    let row_len = row.len();
    let limit = if max_col < row_len { max_col } else { row_len };
    let mut i: usize = 0;
    while i < text.len()
        invariant
            row@.len() == orig.len() == row_len,
            limit <= row_len,
            limit <= max_col,
            i <= text.len(),
            forall|c: int|
                0 <= c < row_len ==> #[trigger] row@[c] == (if start_col <= c < limit && c - start_col < i {
                    text@[c - start_col]
                } else {
                    orig[c]
                }),
        ensures
            forall|c: int|
                0 <= c < row_len ==> #[trigger] row@[c] == (if start_col <= c < limit && c - start_col
                    < text.len() {
                    text@[c - start_col]
                } else {
                    orig[c]
                }),
        decreases text.len() - i,
    {
        if start_col >= limit || i >= limit - start_col {
            break;
        }
        let col = start_col + i;
        row.set(col, text[i]);
        i += 1;
    }
    assert(row@ =~= placed(orig, start_col as nat, text@, max_col as nat));
}

/// Write `text` into `row` right-aligned so that its last character is at `end_col`.
fn place_text_right_aligned(row: &mut Vec<char>, end_col: usize, text: &Vec<char>)
    ensures
        final(row)@ == placed_right(old(row)@, end_col as nat, text@),
{
    let ghost orig = row@;
    let len = text.len();
    if len == 0 {
        assert(row@ =~= placed_right(orig, end_col as nat, text@));
        return;
    }
    let start_col = if end_col >= len - 1 { end_col - (len - 1) } else { 0 };
    let row_len = row.len();
    let mut i: usize = 0;
    while i < len
        invariant
            row@.len() == orig.len() == row_len,
            len == text@.len(),
            start_col == sat_sub((end_col + 1) as nat, len as nat),
            i <= len,
            forall|c: int|
                0 <= c < row_len ==> #[trigger] row@[c] == (if start_col <= c < start_col + i {
                    text@[c - start_col]
                } else {
                    orig[c]
                }),
        decreases len - i,
    {
        if start_col < row_len && i < row_len - start_col {
            row.set(start_col + i, text[i]);
        }
        i += 1;
    }
    assert(row@ =~= placed_right(orig, end_col as nat, text@));
}

} // verus!

verus! {

/// The character rows of a grid.
pub open spec fn rows_view(g: Seq<Vec<char>>) -> Seq<Seq<char>> {
    g.map_values(|r: Vec<char>| r@)
}

/// Canvas cell before any label or point: the vertical axis (`^` on top,
/// `v` at the bottom, `┼` at the crossing, `│` elsewhere), the horizontal
/// axis of `─` on row 11, spaces elsewhere.
pub open spec fn base_cell(r: int, c: int, center_col: int) -> char {
    if c == center_col {
        if r == 0 {
            '^'
        } else if r == CANVAS_ROWS + 1 {
            'v'
        } else if r == CANVAS_ROWS / 2 + 1 {
            '\u{253C}'
        } else {
            '\u{2502}'
        }
    } else if r == CANVAS_ROWS / 2 + 1 {
        '\u{2500}'
    } else {
        ' '
    }
}

/// The canvas with its axes drawn: `CANVAS_ROWS + 2` rows of `width` cells.
pub open spec fn base_grid(width: nat, center_col: nat) -> Seq<Seq<char>> {
    Seq::new((CANVAS_ROWS + 2) as nat, |r: int| Seq::new(width, |c: int| base_cell(r, c, center_col as int)))
}

/// The canvas with the four quadrant labels written in.
pub open spec fn with_quadrant_labels(g: Seq<Seq<char>>, q: QuadrantLabels, width: nat, center_col: nat) -> Seq<Seq<char>> {
    let g1 = match q.q1 {
        Some(t) => g.update(1, placed(g[1], (center_col + 2) as nat, t@, width)),
        None => g,
    };
    let g2 = match q.q2 {
        Some(t) => g1.update(1, placed_right(g1[1], sat_sub(center_col, 2), t@)),
        None => g1,
    };
    let last = CANVAS_ROWS as int;
    let g3 = match q.q3 {
        Some(t) => g2.update(last, placed_right(g2[last], sat_sub(center_col, 2), t@)),
        None => g2,
    };
    match q.q4 {
        Some(t) => g3.update(last, placed(g3[last], (center_col + 2) as nat, t@, width)),
        None => g3,
    }
}

/// A row of the canvas after the quadrant labels, seen from the vertical axis
/// at `cc`: left of the axis only `left` appears, right-aligned so that its
/// last character is two columns before the axis; right of the axis only
/// `right` appears, from two columns after the axis (cut at the canvas
/// edge); the axis column and every other cell keep the row `before`.
pub open spec fn labels_beside_axis(
    after: Seq<char>,
    before: Seq<char>,
    left: Option<String>,
    right: Option<String>,
    width: nat,
    cc: nat,
) -> bool {
    &&& after.len() == before.len()
    &&& forall|c: int|
        0 <= c < cc && c < after.len() ==> #[trigger] after[c] == match left {
            Some(t) => if cc - 1 - t@.len() <= c && c < cc - 1 {
                t@[c - (cc - 1 - t@.len())]
            } else {
                before[c]
            },
            None => before[c],
        }
    &&& forall|c: int|
        cc < c < after.len() ==> #[trigger] after[c] == match right {
            Some(t) => if cc + 2 <= c && c < width && c - (cc + 2) < t@.len() {
                t@[c - (cc + 2)]
            } else {
                before[c]
            },
            None => before[c],
        }
    &&& cc < after.len() ==> after[cc as int] == before[cc as int]
}

/// The quadrant labels sit in their quadrants: on the top label row the
/// second quadrant's label lies left of the vertical axis and the first's
/// right of it; on the bottom label row the third quadrant's label lies left
/// of the axis and the fourth's right of it. No other row changes. (A left
/// label is taken to fit between the canvas edge and the axis.)
pub proof fn quadrant_labels_sit_in_their_quadrants(g: Seq<Seq<char>>, q: QuadrantLabels, width: nat, cc: nat)
    requires
        g.len() == CANVAS_ROWS + 2,
        2 <= cc,
        q.q2 matches Some(t) ==> t@.len() + 1 <= cc,
        q.q3 matches Some(t) ==> t@.len() + 1 <= cc,
    ensures
        with_quadrant_labels(g, q, width, cc).len() == g.len(),
        labels_beside_axis(with_quadrant_labels(g, q, width, cc)[1], g[1], q.q2, q.q1, width, cc),
        labels_beside_axis(
            with_quadrant_labels(g, q, width, cc)[CANVAS_ROWS as int],
            g[CANVAS_ROWS as int],
            q.q3,
            q.q4,
            width,
            cc,
        ),
        forall|r: int|
            0 <= r < g.len() && r != 1 && r != CANVAS_ROWS ==> #[trigger] with_quadrant_labels(g, q, width, cc)[r]
                == g[r],
{
    let out = with_quadrant_labels(g, q, width, cc);
    let last = CANVAS_ROWS as int;
    let r1 = match q.q1 {
        Some(t) => placed(g[1], (cc + 2) as nat, t@, width),
        None => g[1],
    };
    let r1b = match q.q2 {
        Some(t) => placed_right(r1, sat_sub(cc, 2), t@),
        None => r1,
    };
    let rl = match q.q3 {
        Some(t) => placed_right(g[last], sat_sub(cc, 2), t@),
        None => g[last],
    };
    let rlb = match q.q4 {
        Some(t) => placed(rl, (cc + 2) as nat, t@, width),
        None => rl,
    };
    assert(out[1] == r1b);
    assert(out[last] == rlb);
    assert forall|r: int| 0 <= r < g.len() && r != 1 && r != CANVAS_ROWS implies #[trigger] out[r] == g[r] by {}
}

/// On the finished canvas of a chart without points, the quadrant labels sit
/// in their quadrants around the vertical axis of the bare canvas: the
/// second and first quadrants' labels left and right of the axis on the top
/// label row, the third and fourth quadrants' labels left and right of it on
/// the bottom label row. (A left label is taken to fit between the canvas
/// edge and the axis.)
pub proof fn chart_quadrant_labels_sit_in_their_quadrants(diag: QuadrantChart, max_width: Option<usize>)
    requires
        diag.points@.len() == 0,
        diag.quadrants.q2 matches Some(t) ==> t@.len() + 1 <= canvas_width_for(max_width) / 2,
        diag.quadrants.q3 matches Some(t) ==> t@.len() + 1 <= canvas_width_for(max_width) / 2,
    ensures
        ({
            let w = canvas_width_for(max_width);
            let cc = w / 2;
            let base = base_grid(w, cc);
            let g = chart_grid(diag, max_width);
            &&& labels_beside_axis(g[1], base[1], diag.quadrants.q2, diag.quadrants.q1, w, cc)
            &&& labels_beside_axis(
                g[CANVAS_ROWS as int],
                base[CANVAS_ROWS as int],
                diag.quadrants.q3,
                diag.quadrants.q4,
                w,
                cc,
            )
        }),
{
    let w = canvas_width_for(max_width);
    let cc = w / 2;
    let base = base_grid(w, cc);
    let g = with_quadrant_labels(base, diag.quadrants, w, cc);
    quadrant_labels_sit_in_their_quadrants(base, diag.quadrants, w, cc);
    assert(with_points(g, diag.points@, w, cc, diag.points@.len()) == g);
}

/// The canvas with one point drawn: a `·` marker at its cell followed by its
/// label, skipped when the cell falls off the body rows or the canvas.
pub open spec fn with_point(g: Seq<Seq<char>>, p: PlacedPoint, width: nat, center_col: nat) -> Seq<Seq<char>> {
    let (col, row) = point_cell(p, center_col, (CANVAS_ROWS / 2) as nat, CANVAS_ROWS as nat);
    if row == 0 || row > CANVAS_ROWS || col >= width {
        g
    } else {
        g.update(row as int, placed(g[row as int].update(col as int, '\u{00B7}'), col + 1, p.label@, width))
    }
}

/// The canvas with the first `k` points drawn in order (a later point
/// overwrites an earlier one).
pub open spec fn with_points(g: Seq<Seq<char>>, pts: Seq<PlacedPoint>, width: nat, center_col: nat, k: nat) -> Seq<Seq<char>>
    decreases k,
{
    if k == 0 {
        g
    } else {
        with_point(with_points(g, pts, width, center_col, (k - 1) as nat), pts[k - 1], width, center_col)
    }
}

/// The canvas with the x-axis end labels written over the axis row: the low
/// label from column 0, the high label ending at the right edge.
pub open spec fn with_x_labels(g: Seq<Seq<char>>, x_axis: Option<QuadrantAxis>, width: nat) -> Seq<Seq<char>> {
    let xr = (CANVAS_ROWS / 2 + 1) as int;
    match x_axis {
        Some(ax) => {
            let g1 = if ax.low@.len() > 0 { g.update(xr, placed(g[xr], 0, ax.low@, width)) } else { g };
            if ax.high@.len() > 0 {
                g1.update(xr, placed(g1[xr], sat_sub(width, unicode_str_width(ax.high@) as nat), ax.high@, width))
            } else {
                g1
            }
        },
        None => g,
    }
}

/// The finished canvas of a chart.
pub open spec fn chart_grid(diag: QuadrantChart, max_width: Option<usize>) -> Seq<Seq<char>> {
    let w = canvas_width_for(max_width);
    let cc = w / 2;
    let g = with_quadrant_labels(base_grid(w, cc), diag.quadrants, w, cc);
    let g2 = with_points(g, diag.points@, w, cc, diag.points@.len());
    with_x_labels(g2, diag.x_axis, w)
}

/// The first `k` canvas rows, trailing white space trimmed, each ending in a line feed.
pub open spec fn grid_lines(g: Seq<Seq<char>>, k: nat) -> Seq<char>
    decreases k,
{
    if k == 0 {
        Seq::empty()
    } else {
        grid_lines(g, (k - 1) as nat) + trim_end_ws(g[k - 1]) + seq!['\n']
    }
}

/// A line holding `text` centred on `center_col`.
pub open spec fn centred_line(text: Seq<char>, center_col: nat) -> Seq<char> {
    rep(' ', sat_sub(center_col, (unicode_str_width(text) / 2) as nat)) + text + seq!['\n']
}

/// Rendered text of a quadrant chart: the centred title and a blank line,
/// the centred high y label, the canvas rows, and the centred low y label,
/// without trailing line feeds.
pub open spec fn quadrant_text(diag: QuadrantChart, max_width: Option<usize>) -> Seq<char> {
    let cc = canvas_width_for(max_width) / 2;
    trim_newlines(title_lines(diag, cc) + y_label_line(diag, cc, true) + grid_lines(
        chart_grid(diag, max_width),
        (CANVAS_ROWS + 2) as nat,
    ) + y_label_line(diag, cc, false))
}

/// The centred title followed by a blank line (nothing without a title).
pub open spec fn title_lines(diag: QuadrantChart, cc: nat) -> Seq<char> {
    match diag.title {
        Some(t) => rep(' ', sat_sub(cc, (unicode_str_width(t@) / 2) as nat)) + t@ + seq!['\n', '\n'],
        None => Seq::empty(),
    }
}

/// The centred high (or low) y-axis label line (nothing without a y axis).
pub open spec fn y_label_line(diag: QuadrantChart, cc: nat, high: bool) -> Seq<char> {
    match diag.y_axis {
        Some(ax) => centred_line(if high { ax.high@ } else { ax.low@ }, cc),
        None => Seq::empty(),
    }
}

/// A canvas of `CANVAS_ROWS + 2` rows of `width` cells.
pub open spec fn grid_shape(g: Seq<Vec<char>>, width: nat) -> bool {
    &&& g.len() == CANVAS_ROWS + 2
    &&& forall|i: int| 0 <= i < g.len() ==> (#[trigger] g[i])@.len() == width
}

/// Replace row `r` of the grid by `placed(.., start, text, max_col)`.
fn grid_place(grid: &mut Vec<Vec<char>>, r: usize, start: usize, text: &Vec<char>, max_col: usize)
    requires
        r < old(grid)@.len(),
    ensures
        forall|w: nat| grid_shape(old(grid)@, w) ==> grid_shape(final(grid)@, w),
        rows_view(final(grid)@) == rows_view(old(grid)@).update(
            r as int,
            placed(old(grid)@[r as int]@, start as nat, text@, max_col as nat),
        ),
{
    let mut row = grid.remove(r);
    place_text(&mut row, start, text, max_col);
    grid.insert(r, row);
    assert(forall|i: int| 0 <= i < grid@.len() ==> (#[trigger] grid@[i])@.len() == old(grid)@[i]@.len());
    assert(rows_view(grid@) =~= rows_view(old(grid)@).update(
        r as int,
        placed(old(grid)@[r as int]@, start as nat, text@, max_col as nat),
    ));
}

/// Replace row `r` of the grid by `placed_right(.., end, text)`.
fn grid_place_right(grid: &mut Vec<Vec<char>>, r: usize, end: usize, text: &Vec<char>)
    requires
        r < old(grid)@.len(),
    ensures
        forall|w: nat| grid_shape(old(grid)@, w) ==> grid_shape(final(grid)@, w),
        rows_view(final(grid)@) == rows_view(old(grid)@).update(
            r as int,
            placed_right(old(grid)@[r as int]@, end as nat, text@),
        ),
{
    let mut row = grid.remove(r);
    place_text_right_aligned(&mut row, end, text);
    grid.insert(r, row);
    assert(forall|i: int| 0 <= i < grid@.len() ==> (#[trigger] grid@[i])@.len() == old(grid)@[i]@.len());
    assert(rows_view(grid@) =~= rows_view(old(grid)@).update(r as int, placed_right(old(grid)@[r as int]@, end as nat, text@)));
}

/// Draw a point's marker and label into row `r` at column `col`.
fn grid_mark(grid: &mut Vec<Vec<char>>, r: usize, col: usize, label: &Vec<char>, width: usize)
    requires
        r < old(grid)@.len(),
        col < old(grid)@[r as int]@.len(),
    ensures
        forall|w: nat| grid_shape(old(grid)@, w) ==> grid_shape(final(grid)@, w),
        rows_view(final(grid)@) == rows_view(old(grid)@).update(
            r as int,
            placed(old(grid)@[r as int]@.update(col as int, '\u{00B7}'), (col + 1) as nat, label@, width as nat),
        ),
{
    let mut row = grid.remove(r);
    let n = row.len();
    assert(col + 1 <= n);
    row.set(col, '\u{00B7}');
    place_text(&mut row, col + 1, label, width);
    grid.insert(r, row);
    assert(forall|i: int| 0 <= i < grid@.len() ==> (#[trigger] grid@[i])@.len() == old(grid)@[i]@.len());
    assert(rows_view(grid@) =~= rows_view(old(grid)@).update(
        r as int,
        placed(old(grid)@[r as int]@.update(col as int, '\u{00B7}'), (col + 1) as nat, label@, width as nat),
    ));
}

} // verus!

verus! {

/// Build the canvas with its axes drawn.
fn build_base_grid(width: usize, center_col: usize) -> (g: Vec<Vec<char>>)
    ensures
        rows_view(g@) == base_grid(width as nat, center_col as nat),
        g@.len() == CANVAS_ROWS + 2,
        forall|r: int| 0 <= r < g@.len() ==> (#[trigger] g@[r])@.len() == width,
{
    let mut g: Vec<Vec<char>> = Vec::new();
    let mut r: usize = 0;
    while r < CANVAS_ROWS + 2
        invariant
            r <= CANVAS_ROWS + 2,
            g@.len() == r,
            forall|i: int| 0 <= i < r ==> (#[trigger] g@[i])@ == Seq::new(width as nat, |c: int| base_cell(i, c, center_col as int)),
        decreases CANVAS_ROWS + 2 - r,
    {
        let mut row: Vec<char> = Vec::new();
        let mut c: usize = 0;
        while c < width
            invariant
                c <= width,
                row@ == Seq::new(c as nat, |k: int| base_cell(r as int, k, center_col as int)),
            decreases width - c,
        {
            let ch = if c == center_col {
                if r == 0 {
                    '^'
                } else if r == CANVAS_ROWS + 1 {
                    'v'
                } else if r == CANVAS_ROWS / 2 + 1 {
                    '\u{253C}'
                } else {
                    '\u{2502}'
                }
            } else if r == CANVAS_ROWS / 2 + 1 {
                '\u{2500}'
            } else {
                ' '
            };
            row.push(ch);
            c += 1;
            assert(row@ =~= Seq::new(c as nat, |k: int| base_cell(r as int, k, center_col as int)));
        }
        g.push(row);
        r += 1;
    }
    assert(rows_view(g@) =~= base_grid(width as nat, center_col as nat));
    g
}

/// Append a line holding `text` centred on `center_col`.
fn push_centred(out: &mut Vec<char>, text: &String, center_col: usize)
    ensures
        final(out)@ == old(out)@ + centred_line(text@, center_col as nat),
{
    let ghost start = out@;
    let lw = str_width(text.as_str());
    push_rep(out, ' ', center_col.saturating_sub(lw / 2));
    let t = chars_of(text.as_str());
    push_all(out, &t);
    out.push('\n');
    assert(final(out)@ =~= start + centred_line(text@, center_col as nat));
}

/// Write the quadrant labels into the canvas.
fn draw_quadrant_labels(grid: &mut Vec<Vec<char>>, q: &QuadrantLabels, canvas_width: usize, center_col: usize)
    requires
        grid_shape(old(grid)@, canvas_width as nat),
        center_col + 2 <= usize::MAX,
    ensures
        grid_shape(final(grid)@, canvas_width as nat),
        rows_view(final(grid)@) == with_quadrant_labels(rows_view(old(grid)@), *q, canvas_width as nat, center_col as nat),
{
    let rows = CANVAS_ROWS;
    if let Some(q1) = &q.q1 {
        let t = chars_of(q1.as_str());
        grid_place(grid, 1, center_col + 2, &t, canvas_width);
    }
    if let Some(q2) = &q.q2 {
        let t = chars_of(q2.as_str());
        grid_place_right(grid, 1, center_col.saturating_sub(2), &t);
    }
    if let Some(q3) = &q.q3 {
        let t = chars_of(q3.as_str());
        grid_place_right(grid, rows, center_col.saturating_sub(2), &t);
    }
    if let Some(q4) = &q.q4 {
        let t = chars_of(q4.as_str());
        grid_place(grid, rows, center_col + 2, &t, canvas_width);
    }
}

/// Draw the points into the canvas, in order.
fn draw_points(grid: &mut Vec<Vec<char>>, points: &Vec<PlacedPoint>, canvas_width: usize, center_col: usize)
    requires
        grid_shape(old(grid)@, canvas_width as nat),
        center_col + 2 <= usize::MAX,
    ensures
        grid_shape(final(grid)@, canvas_width as nat),
        rows_view(final(grid)@) == with_points(
            rows_view(old(grid)@),
            points@,
            canvas_width as nat,
            center_col as nat,
            points@.len(),
        ),
{
    let ghost g0 = rows_view(grid@);
    let rows = CANVAS_ROWS;
    let mid_row = rows / 2;
    let mut k: usize = 0;
    while k < points.len()
        invariant
            k <= points.len(),
            rows == CANVAS_ROWS,
            mid_row == rows / 2,
            center_col + 2 <= usize::MAX,
            grid_shape(grid@, canvas_width as nat),
            rows_view(grid@) == with_points(g0, points@, canvas_width as nat, center_col as nat, k as nat),
        decreases points.len() - k,
    {
        let pt = &points[k];
        let (col, grid_row) = point_to_grid(pt, center_col, mid_row, rows);
        if !(grid_row == 0 || grid_row > rows || col >= canvas_width) {
            let label = chars_of(pt.label.as_str());
            assert(grid@[grid_row as int]@.len() == canvas_width);
            grid_mark(grid, grid_row, col, &label, canvas_width);
        }
        k += 1;
    }
}

/// Write the x-axis end labels over the axis row.
fn draw_x_labels(grid: &mut Vec<Vec<char>>, x_axis: &Option<QuadrantAxis>, canvas_width: usize)
    requires
        grid_shape(old(grid)@, canvas_width as nat),
    ensures
        grid_shape(final(grid)@, canvas_width as nat),
        rows_view(final(grid)@) == with_x_labels(rows_view(old(grid)@), *x_axis, canvas_width as nat),
{
    let x_axis_grid_row = CANVAS_ROWS / 2 + 1;
    match x_axis {
        Some(x_ax) => {
            if !x_ax.low.as_str().is_empty() {
                let t = chars_of(x_ax.low.as_str());
                grid_place(grid, x_axis_grid_row, 0, &t, canvas_width);
            }
            if !x_ax.high.as_str().is_empty() {
                let hw = str_width(x_ax.high.as_str());
                let start_col = canvas_width.saturating_sub(hw);
                let t = chars_of(x_ax.high.as_str());
                grid_place(grid, x_axis_grid_row, start_col, &t, canvas_width);
            }
        },
        None => {},
    }
}

/// Render a quadrant chart to text on a canvas of `max_width` columns (at
/// least `MIN_WIDTH`; `DEFAULT_WIDTH` without a budget).
pub fn render(diag: &QuadrantChart, max_width: Option<usize>) -> (r: String)
    ensures
        r@ == quadrant_text(*diag, max_width),
{
    let canvas_width = match max_width {
        Some(w) => if w > MIN_WIDTH { w } else { MIN_WIDTH },
        None => DEFAULT_WIDTH,
    };
    let center_col = canvas_width / 2;
    let ghost w = canvas_width as nat;
    let ghost cc = center_col as nat;
    let mut out: Vec<char> = Vec::new();
    match &diag.title {
        Some(title) => {
            let tw = str_width(title.as_str());
            push_rep(&mut out, ' ', center_col.saturating_sub(tw / 2));
            let t = chars_of(title.as_str());
            push_all(&mut out, &t);
            out.push('\n');
            out.push('\n');
        },
        None => {},
    }
    match &diag.y_axis {
        Some(ax) => push_centred(&mut out, &ax.high, center_col),
        None => {},
    }
    let ghost head = out@;
    let ghost title_part = title_lines(*diag, cc);
    let ghost high_part = y_label_line(*diag, cc, true);
    assert(head =~= title_part + high_part);
    let mut grid = build_base_grid(canvas_width, center_col);
    draw_quadrant_labels(&mut grid, &diag.quadrants, canvas_width, center_col);
    let ghost gq = rows_view(grid@);
    draw_points(&mut grid, &diag.points, canvas_width, center_col);
    draw_x_labels(&mut grid, &diag.x_axis, canvas_width);
    assert(rows_view(grid@) == chart_grid(*diag, max_width));
    let ghost gf = rows_view(grid@);
    let mut r: usize = 0;
    while r < grid.len()
        invariant
            r <= grid@.len(),
            rows_view(grid@) == gf,
            out@ == head + grid_lines(gf, r as nat),
        decreases grid.len() - r,
    {
        let mut line: Vec<char> = Vec::new();
        push_all(&mut line, &grid[r]);
        assert(line@ == gf[r as int]);
        pop_whitespace(&mut line);
        push_all(&mut out, &line);
        out.push('\n');
        r += 1;
        assert(out@ =~= head + grid_lines(gf, r as nat));
    }
    assert(grid@.len() == CANVAS_ROWS + 2);
    let ghost low_part = y_label_line(*diag, cc, false);
    match &diag.y_axis {
        Some(ax) => push_centred(&mut out, &ax.low, center_col),
        None => {},
    }
    assert(out@ =~= title_part + high_part + grid_lines(chart_grid(*diag, max_width), (CANVAS_ROWS + 2) as nat) + low_part);
    pop_newlines(&mut out);
    string_from_chars(out.as_slice())
}

} // verus!
