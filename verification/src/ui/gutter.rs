//! Line-number gutter text: the gutter is sized from the document's line
//! count and shows right-aligned absolute line numbers followed by ` | `;
//! continuation rows of a wrapped line get a blank gutter cell.

use vstd::prelude::*;
use crate::text::{decimal, decimal_chars, push_all, push_rep, rep, sat_sub, string_from_chars};

verus! {

/// Number of decimal digits of `n` (1 for 0).
pub open spec fn digit_count(n: nat) -> nat
    decreases n,
{
    if n < 10 {
        1
    } else {
        1 + digit_count(n / 10)
    }
}

/// Digits reserved for line numbers: the digits of the document's line
/// count, at least 4 (4 for an empty document).
pub open spec fn gutter_digit_count(total_doc_lines: u32) -> nat {
    if total_doc_lines == 0 {
        4
    } else if digit_count(total_doc_lines as nat) > 4 {
        digit_count(total_doc_lines as nat)
    } else {
        4
    }
}

/// Digits reserved for the line numbers of a document of `total_doc_lines` lines.
pub fn gutter_digits(total_doc_lines: u32) -> (r: u32)
    ensures
        r == gutter_digit_count(total_doc_lines),
{
    if total_doc_lines == 0 {
        return 4;
    }
    let mut n = total_doc_lines;
    let mut d: u32 = 1;
    proof {
        lemma_digit_count_u32(total_doc_lines as nat);
    }
    while n >= 10
        invariant
            1 <= d,
            d + digit_count(n as nat) - 1 == digit_count(total_doc_lines as nat),
            digit_count(total_doc_lines as nat) <= 10,
        decreases n,
    {
        n = n / 10;
        d += 1;
    }
    if d > 4 { d } else { 4 }
}

/// A `u32` has at most ten decimal digits.
proof fn lemma_digit_count_u32(n: nat)
    requires
        n <= u32::MAX,
    ensures
        1 <= digit_count(n) <= 10,
{
    assert(pow10(10) == 10000000000) by {
        reveal_with_fuel(pow10, 11);
    }
    lemma_digit_count_below_pow10(n, 10);
}

/// A number below `10^k` has at most `k` digits.
proof fn lemma_digit_count_below_pow10(n: nat, k: nat)
    requires
        k >= 1,
        n < pow10(k),
    ensures
        1 <= digit_count(n) <= k,
    decreases k,
{
    if n >= 10 {
        assert(pow10(1) == 10) by {
            reveal_with_fuel(pow10, 2);
        }
        assert(k >= 2);
        let p = pow10((k - 1) as nat);
        assert(pow10(k) == 10 * p);
        assert(n / 10 < p) by (nonlinear_arith)
            requires
                n < 10 * p,
        ;
        lemma_digit_count_below_pow10(n / 10, (k - 1) as nat);
    }
}

/// `10^k`.
pub open spec fn pow10(k: nat) -> nat
    decreases k,
{
    if k == 0 {
        1
    } else {
        10 * pow10((k - 1) as nat)
    }
}

/// Gutter cell for line `n`: the number right-aligned in `width` columns,
/// then ` | `.
pub open spec fn number_cell(n: nat, width: nat) -> Seq<char> {
    rep(' ', sat_sub(width, decimal(n).len())) + decimal(n) + seq![' ', '|', ' ']
}

/// Blank gutter cell: `width` spaces, then ` | `.
pub open spec fn blank_cell(width: nat) -> Seq<char> {
    rep(' ', width) + seq![' ', '|', ' ']
}

/// Gutter cell for line `n` with `width` digit columns.
pub fn gutter_label(n: u32, width: usize) -> (r: String)
    ensures
        r@ == number_cell(n as nat, width as nat),
{
    let d = decimal_chars(n as u64);
    let mut v: Vec<char> = Vec::new();
    push_rep(&mut v, ' ', width.saturating_sub(d.len()));
    push_all(&mut v, &d);
    v.push(' ');
    v.push('|');
    v.push(' ');
    assert(v@ =~= number_cell(n as nat, width as nat));
    string_from_chars(v.as_slice())
}

/// Blank gutter cell with `width` digit columns.
pub fn blank_gutter(width: usize) -> (r: String)
    ensures
        r@ == blank_cell(width as nat),
{
    let mut v: Vec<char> = Vec::new();
    push_rep(&mut v, ' ', width);
    v.push(' ');
    v.push('|');
    v.push(' ');
    assert(v@ =~= blank_cell(width as nat));
    string_from_chars(v.as_slice())
}

/// Gutter cells for logical lines numbered from `first`, where line `i`
/// occupies `wraps[i]` visual rows: its number on the first row, blanks on
/// the continuation rows.
pub open spec fn gutter_cells(first: nat, wraps: Seq<u16>, width: nat, k: nat) -> Seq<Seq<char>>
    decreases k,
{
    if k == 0 {
        Seq::empty()
    } else {
        let prev = gutter_cells(first, wraps, width, (k - 1) as nat);
        let extra = if wraps[k - 1] > 1 { (wraps[k - 1] - 1) as nat } else { 0 };
        prev.push(number_cell((first + k - 1) as nat, width)) + Seq::new(extra, |_i: int| blank_cell(width))
    }
}

/// The views of a sequence of strings.
pub open spec fn cells_view(s: Seq<String>) -> Seq<Seq<char>> {
    s.map_values(|x: String| x@)
}

/// Build the gutter column for a slice of text: one numbered cell per
/// logical line (numbered from `first_line_number`) followed by a blank cell
/// for each continuation row of that line.
pub fn gutter_lines(first_line_number: u32, wraps: &Vec<u16>, num_digits: u32) -> (r: Vec<String>)
    requires
        first_line_number + wraps@.len() <= u32::MAX + 1,
    ensures
        cells_view(r@) == gutter_cells(first_line_number as nat, wraps@, num_digits as nat, wraps@.len()),
{
    let width = num_digits as usize;
    let mut out: Vec<String> = Vec::new();
    let mut i: usize = 0;
    while i < wraps.len()
        invariant
            i <= wraps@.len(),
            first_line_number + wraps@.len() <= u32::MAX + 1,
            width == num_digits as nat,
            cells_view(out@) == gutter_cells(first_line_number as nat, wraps@, num_digits as nat, i as nat),
        decreases wraps.len() - i,
    {
        let ghost before = cells_view(out@);
        out.push(gutter_label(first_line_number + i as u32, width));
        let ghost mid = cells_view(out@);
        assert(mid =~= before.push(number_cell((first_line_number + i) as nat, num_digits as nat)));
        let extra: u16 = if wraps[i] > 1 { wraps[i] - 1 } else { 0 };
        let mut j: u16 = 0;
        while j < extra
            invariant
                j <= extra,
                width == num_digits as nat,
                cells_view(out@) == mid + Seq::new(j as nat, |_i: int| blank_cell(num_digits as nat)),
            decreases extra - j,
        {
            let ghost prev = out@;
            let g = blank_gutter(width);
            out.push(g);
            assert(cells_view(out@) =~= cells_view(prev).push(blank_cell(num_digits as nat)));
            j += 1;
            assert(cells_view(out@) =~= mid + Seq::new(j as nat, |_i: int| blank_cell(num_digits as nat)));
        }
        i += 1;
        assert(cells_view(out@) =~= gutter_cells(first_line_number as nat, wraps@, num_digits as nat, i as nat));
    }
    out
}

/// Visual rows a logical line occupies: its wrap count, at least one.
pub open spec fn visual_rows(w: u16) -> nat {
    if w > 1 { w as nat } else { 1 }
}

/// Visual rows of a run of logical lines.
pub open spec fn total_rows(wraps: Seq<u16>) -> nat
    decreases wraps.len(),
{
    if wraps.len() == 0 {
        0
    } else {
        total_rows(wraps.drop_last()) + visual_rows(wraps.last())
    }
}

proof fn lemma_total_rows_grows(wraps: Seq<u16>, i: int, n: int)
    requires
        0 <= i < n <= wraps.len(),
    ensures
        total_rows(wraps.take(i)) < total_rows(wraps.take(n)),
    decreases n - i,
{
    assert(wraps.take(n).drop_last() =~= wraps.take(n - 1));
    if i < n - 1 {
        lemma_total_rows_grows(wraps, i, n - 1);
    }
}

/// The gutter never gets out of step with the wrapped text: it has exactly
/// one cell per visual row, and line `i` of the slice is numbered on the
/// first visual row of that line.
pub proof fn gutter_rows_match_visual_rows(first: nat, wraps: Seq<u16>, width: nat, n: nat)
    requires
        n <= wraps.len(),
    ensures
        gutter_cells(first, wraps, width, n).len() == total_rows(wraps.take(n as int)),
        forall|i: int|
            0 <= i < n ==> #[trigger] gutter_cells(first, wraps, width, n)[total_rows(wraps.take(i)) as int]
                == number_cell((first + i) as nat, width),
    decreases n,
{
    if n > 0 {
        let m = (n - 1) as nat;
        gutter_rows_match_visual_rows(first, wraps, width, m);
        let prev = gutter_cells(first, wraps, width, m);
        let cur = gutter_cells(first, wraps, width, n);
        assert(wraps.take(n as int).drop_last() =~= wraps.take(m as int));
        assert(wraps.take(n as int).last() == wraps[m as int]);
        assert forall|i: int| 0 <= i < n implies #[trigger] cur[total_rows(wraps.take(i)) as int] == number_cell(
            (first + i) as nat,
            width,
        ) by {
            if i < m {
                lemma_total_rows_grows(wraps, i, m as int);
                assert(cur[total_rows(wraps.take(i)) as int] == prev[total_rows(wraps.take(i)) as int]);
            } else {
                assert(cur[prev.len() as int] == number_cell((first + m) as nat, width));
            }
        }
    }
}

} // verus!
