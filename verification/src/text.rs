//! Character-sequence utilities shared by the diagram renderers: display
//! width (through `unicode-width`), truncation with an ellipsis, padding and
//! repetition.

use vstd::prelude::*;

verus! {

/// The horizontal ellipsis appended by the truncation helpers.
pub const ELLIPSIS: char = '\u{2026}';

/// Display width of a string as computed by `unicode_width::UnicodeWidthStr::width`.
pub uninterp spec fn unicode_str_width(s: Seq<char>) -> usize;

/// Display width of one character as computed by
/// `unicode_width::UnicodeWidthChar::width` (`None` for control characters).
pub uninterp spec fn unicode_char_width(c: char) -> Option<usize>;

/// True when `c` is printable ASCII (U+0020 to U+007E).
pub open spec fn printable_ascii_char(c: char) -> bool {
    0x20 <= c as u32 && (c as u32) < 0x7f
}

/// True when `c` is one of the narrow characters the renderers draw with:
/// printable ASCII, the box-drawing block U+2500 to U+257F, the middle dot
/// U+00B7, the ellipsis U+2026, the arrow U+2192 or the pointer U+25BA.
pub open spec fn narrow_char(c: char) -> bool {
    let u = c as u32;
    printable_ascii_char(c) || (0x2500 <= u && u <= 0x257f) || u == 0xb7 || u == 0x2026 || u == 0x2192
        || u == 0x25ba
}

/// True when every character of `s` is a narrow character.
pub open spec fn narrow_text(s: Seq<char>) -> bool {
    forall|i: int| 0 <= i < s.len() ==> narrow_char(#[trigger] s[i])
}

/// Narrow text concatenates to narrow text whose length is the sum of the
/// parts: since each narrow character takes one column (see `str_width`),
/// display widths of narrow texts add up.
pub proof fn narrow_text_concat(a: Seq<char>, b: Seq<char>)
    requires
        narrow_text(a),
        narrow_text(b),
    ensures
        narrow_text(a + b),
        (a + b).len() == a.len() + b.len(),
{
    assert forall|i: int| 0 <= i < (a + b).len() implies narrow_char(#[trigger] (a + b)[i]) by {
        if i < a.len() {
            assert((a + b)[i] == a[i]);
        } else {
            assert((a + b)[i] == b[i - a.len()]);
        }
    }
}

/// Repeating a narrow character gives narrow text.
pub proof fn lemma_rep_narrow(c: char, n: nat)
    requires
        narrow_char(c),
    ensures
        narrow_text(rep(c, n)),
{
    assert forall|i: int| 0 <= i < rep(c, n).len() implies narrow_char(#[trigger] rep(c, n)[i]) by {
        assert(rep(c, n)[i] == c);
    }
}

/// Trusted wrapper around `UnicodeWidthStr::width` (unicode-width 0.2).
///
/// The result is the crate's width of the string, named by `unicode_str_width`.
/// The crate's source shows that the empty string has width 0 and that a
/// string made only of narrow characters (see `narrow_char`) has one column
/// per character: for each of them the width table holds 1 with no special
/// sequence handling, and none of them starts an emoji, ligature or
/// line-break sequence. The width of other strings (emoji sequences,
/// ligatures, wide characters) is not stated here.
#[verifier::external_body]
pub(crate) fn str_width(s: &str) -> (w: usize)
    ensures
        w == unicode_str_width(s@),
        s@.len() == 0 ==> w == 0,
        narrow_text(s@) ==> w == s@.len(),
{
    unicode_width::UnicodeWidthStr::width(s)
}

/// Trusted wrapper around `UnicodeWidthChar::width` (unicode-width 0.2).
///
/// The result is the crate's width of the character, named by
/// `unicode_char_width`. The crate's source shows that every narrow character
/// (see `narrow_char`) has width `Some(1)` and that the C0 and C1 control
/// ranges have no width.
#[verifier::external_body]
pub(crate) fn char_width(c: char) -> (w: Option<usize>)
    ensures
        w == unicode_char_width(c),
        narrow_char(c) ==> w == Some(1usize),
        (c as u32) < 0x20 || (0x7f <= c as u32 && (c as u32) < 0xa0) ==> w is None,
{
    unicode_width::UnicodeWidthChar::width(c)
}

/// Trusted wrapper around `String::from_iter` over a slice of characters.
///
/// The string holds exactly the given characters, in order.
#[verifier::external_body]
pub(crate) fn string_from_chars(v: &[char]) -> (s: String)
    ensures
        s@ == v@,
{
    String::from_iter(v.iter())
}

/// The characters of a string, in order.
pub fn chars_of(s: &str) -> (v: Vec<char>)
    ensures
        v@ == s@,
{
    let mut v: Vec<char> = Vec::new();
    for c in it: s.chars()
        invariant
            v@ == it.seq().take(it.index() as int),
            it.seq() == s@,
    {
        v.push(c);
    }
    v
}

/// `n` copies of `c`.
pub open spec fn rep(c: char, n: nat) -> Seq<char> {
    Seq::new(n, |_i: int| c)
}

/// Append `n` copies of `c`.
pub fn push_rep(out: &mut Vec<char>, c: char, n: usize)
    ensures
        final(out)@ == old(out)@ + rep(c, n as nat),
{
    let ghost start = out@;
    let mut i: usize = 0;
    while i < n
        invariant
            i <= n,
            out@ == start + rep(c, i as nat),
        decreases n - i,
    {
        out.push(c);
        i += 1;
        assert(out@ =~= start + rep(c, i as nat));
    }
}

/// Append all characters of `s`.
pub fn push_all(out: &mut Vec<char>, s: &Vec<char>)
    ensures
        final(out)@ == old(out)@ + s@,
{
    let ghost start = out@;
    let mut i: usize = 0;
    while i < s.len()
        invariant
            i <= s.len(),
            out@ == start + s@.take(i as int),
        decreases s.len() - i,
    {
        out.push(s[i]);
        i += 1;
        assert(out@ =~= start + s@.take(i as int));
    }
    assert(s@.take(s.len() as int) =~= s@);
}

/// Append all characters of `s`.
pub fn push_str(out: &mut Vec<char>, s: &str)
    ensures
        final(out)@ == old(out)@ + s@,
{
    let cs = chars_of(s);
    push_all(out, &cs);
}

/// Width charged to a character while truncating, with `dflt` standing for
/// characters that have no width of their own.
pub open spec fn charged_width(c: char, dflt: nat) -> nat {
    match unicode_char_width(c) {
        Some(w) => w as nat,
        None => dflt,
    }
}

/// Number of leading characters of `s` whose charged widths add up to at most
/// `budget` (the scan stops at the first character that does not fit).
pub open spec fn fitting_prefix_len(s: Seq<char>, budget: nat, dflt: nat) -> nat
    decreases s.len(),
{
    if s.len() == 0 {
        0
    } else if charged_width(s[0], dflt) > budget {
        0
    } else {
        1 + fitting_prefix_len(s.drop_first(), (budget - charged_width(s[0], dflt)) as nat, dflt)
    }
}

/// `s` cut to a display width of `max_w`: unchanged when it fits, empty for a
/// zero budget, otherwise the longest fitting prefix within `max_w - 1`
/// columns followed by an ellipsis.
pub open spec fn truncated(s: Seq<char>, max_w: nat, dflt: nat) -> Seq<char> {
    if max_w == 0 {
        Seq::empty()
    } else if unicode_str_width(s) <= max_w {
        s
    } else {
        s.take(fitting_prefix_len(s, (max_w - 1) as nat, dflt) as int) + seq![ELLIPSIS]
    }
}

proof fn lemma_fitting_prefix_step(s: Seq<char>, k: int, budget: nat, used: nat, dflt: nat)
    requires
        0 <= k < s.len(),
        fitting_prefix_len(s, budget, dflt) == k + fitting_prefix_len(s.skip(k), (budget - used) as nat, dflt),
        used <= budget,
        charged_width(s[k], dflt) <= budget - used,
    ensures
        fitting_prefix_len(s, budget, dflt) == (k + 1) + fitting_prefix_len(
            s.skip(k + 1),
            (budget - used - charged_width(s[k], dflt)) as nat,
            dflt,
        ),
{
    assert(s.skip(k).drop_first() =~= s.skip(k + 1));
    assert(s.skip(k)[0] == s[k]);
}

/// Total charged width of a character sequence.
pub open spec fn charged_sum(s: Seq<char>, dflt: nat) -> nat
    decreases s.len(),
{
    if s.len() == 0 {
        0
    } else {
        charged_width(s[0], dflt) + charged_sum(s.drop_first(), dflt)
    }
}

proof fn lemma_fitting_prefix_fits(s: Seq<char>, budget: nat, dflt: nat)
    ensures
        fitting_prefix_len(s, budget, dflt) <= s.len(),
        charged_sum(s.take(fitting_prefix_len(s, budget, dflt) as int), dflt) <= budget,
    decreases s.len(),
{
    let n = fitting_prefix_len(s, budget, dflt);
    if n == 0 {
        assert(s.take(0) =~= Seq::<char>::empty());
    } else {
        let c = charged_width(s[0], dflt);
        let rest = s.drop_first();
        lemma_fitting_prefix_fits(rest, (budget - c) as nat, dflt);
        let t = s.take(n as int);
        assert(t.drop_first() =~= rest.take((n - 1) as int));
        assert(t[0] == s[0]);
    }
}

/// Truncation keeps a prefix that fits: when `s` is wider than `max_w`, the
/// result is a prefix of `s` whose characters take at most `max_w - 1`
/// columns, followed by a single ellipsis.
pub proof fn truncation_keeps_a_fitting_prefix(s: Seq<char>, max_w: nat, dflt: nat)
    requires
        max_w > 0,
        unicode_str_width(s) > max_w,
    ensures
        ({
            let n = fitting_prefix_len(s, (max_w - 1) as nat, dflt);
            &&& n <= s.len()
            &&& truncated(s, max_w, dflt) == s.take(n as int).push(ELLIPSIS)
            &&& charged_sum(s.take(n as int), dflt) + 1 <= max_w
        }),
{
    lemma_fitting_prefix_fits(s, (max_w - 1) as nat, dflt);
    let n = fitting_prefix_len(s, (max_w - 1) as nat, dflt);
    assert(s.take(n as int) + seq![ELLIPSIS] =~= s.take(n as int).push(ELLIPSIS));
}

/// A text that fits is left unchanged by truncation.
pub proof fn truncation_keeps_fitting_text(s: Seq<char>, max_w: nat, dflt: nat)
    requires
        max_w > 0,
        unicode_str_width(s) <= max_w,
    ensures
        truncated(s, max_w, dflt) == s,
{
}

/// Truncate `s` to at most `max_w` columns, appending `…` when it is cut;
/// characters without a width count as `dflt` columns.
///
/// Narrow text (see `narrow_char`) stays narrow and keeps
/// `min(s.len(), max_w)` characters, so it never takes more than `max_w`
/// columns.
pub fn truncate_chars(s: &str, max_w: usize, dflt: usize) -> (r: Vec<char>)
    ensures
        r@ == truncated(s@, max_w as nat, dflt as nat),
        narrow_text(s@) ==> narrow_text(r@) && r@.len() == (if s@.len() <= max_w { s@.len() } else { max_w as nat }),
{
    if max_w == 0 {
        return Vec::new();
    }
    let w = str_width(s);
    let cs = chars_of(s);
    if w <= max_w {
        return cs;
    }
    let target = max_w - 1;
    let mut result: Vec<char> = Vec::new();
    let mut used: usize = 0;
    let mut k: usize = 0;
    assert(cs@.skip(0) =~= cs@);
    while k < cs.len()
        invariant
            k <= cs.len(),
            used <= target,
            result@ == cs@.take(k as int),
            fitting_prefix_len(cs@, target as nat, dflt as nat) == k + fitting_prefix_len(
                cs@.skip(k as int),
                (target - used) as nat,
                dflt as nat,
            ),
            target + 1 == max_w,
            w > max_w,
            cs@ == s@,
            narrow_text(s@) ==> w == cs@.len() && used == k,
        ensures
            result@ == cs@.take(k as int),
            fitting_prefix_len(cs@, target as nat, dflt as nat) == k,
            narrow_text(s@) ==> k == target,
        decreases cs.len() - k,
    {
        let ch = cs[k];
        let cw = match char_width(ch) {
            Some(x) => x,
            None => dflt,
        };
        if cw > target - used {
            assert(cs@.skip(k as int)[0] == ch);
            assert(fitting_prefix_len(cs@.skip(k as int), (target - used) as nat, dflt as nat) == 0);
            break;
        }
        proof {
            lemma_fitting_prefix_step(cs@, k as int, target as nat, used as nat, dflt as nat);
        }
        result.push(ch);
        used += cw;
        k += 1;
        assert(result@ =~= cs@.take(k as int));
        if k == cs.len() {
            assert(fitting_prefix_len(cs@.skip(k as int), (target - used) as nat, dflt as nat) == 0);
        }
    }
    result.push(ELLIPSIS);
    proof {
        if narrow_text(s@) {
            assert forall|i: int| 0 <= i < result@.len() implies narrow_char(#[trigger] result@[i]) by {
                if i < k {
                    assert(result@[i] == cs@[i]);
                }
            }
        }
    }
    result
}

} // verus!

verus! {

/// `s` without its trailing line feeds.
pub open spec fn trim_newlines(s: Seq<char>) -> Seq<char>
    decreases s.len(),
{
    if s.len() > 0 && s.last() == '\n' {
        trim_newlines(s.drop_last())
    } else {
        s
    }
}

/// Remove every trailing line feed.
pub fn pop_newlines(out: &mut Vec<char>)
    ensures
        final(out)@ == trim_newlines(old(out)@),
{
    while out.len() > 0 && out[out.len() - 1] == '\n'
        invariant
            trim_newlines(out@) == trim_newlines(old(out)@),
        decreases out.len(),
    {
        out.pop();
    }
}

/// `content` padded with spaces (or truncated with `…`) to exactly the given
/// display width; characters without a width count as one column.
pub open spec fn padded(content: Seq<char>, width: nat) -> Seq<char> {
    let cw = unicode_str_width(content) as nat;
    if cw >= width {
        truncated(content, width, 1)
    } else {
        content + rep(' ', (width - cw) as nat)
    }
}

/// Pad (or truncate) `content` to `width` display columns.
/// Narrow text (see `narrow_char`) comes out narrow and exactly `width`
/// characters long.
pub fn pad_to(content: &str, width: usize) -> (r: Vec<char>)
    ensures
        r@ == padded(content@, width as nat),
        narrow_text(content@) ==> narrow_text(r@) && r@.len() == width,
{
    let cw = str_width(content);
    if cw >= width {
        truncate_chars(content, width, 1)
    } else {
        let mut s = chars_of(content);
        let ghost c = s@;
        push_rep(&mut s, ' ', width - cw);
        proof {
            if narrow_text(content@) {
                assert forall|i: int| 0 <= i < s@.len() implies narrow_char(#[trigger] s@[i]) by {
                    if i < c.len() {
                        assert(s@[i] == c[i]);
                    } else {
                        assert(s@[i] == ' ');
                    }
                }
            }
        }
        s
    }
}

} // verus!

verus! {

/// `a + b`, capped at `usize::MAX`.
pub open spec fn sat_add(a: nat, b: nat) -> nat {
    if a + b > usize::MAX {
        usize::MAX as nat
    } else {
        a + b
    }
}

/// `a - b`, floored at zero.
pub open spec fn sat_sub(a: nat, b: nat) -> nat {
    if a >= b {
        (a - b) as nat
    } else {
        0
    }
}

/// Top border of a box whose content area is `iw` columns: `┌` + `iw + 2` dashes + `┐`.
pub open spec fn box_top(iw: nat) -> Seq<char> {
    seq!['\u{250C}'] + rep('\u{2500}', iw + 2) + seq!['\u{2510}']
}

/// Bottom border of a box whose content area is `iw` columns.
pub open spec fn box_bottom(iw: nat) -> Seq<char> {
    seq!['\u{2514}'] + rep('\u{2500}', iw + 2) + seq!['\u{2518}']
}

/// The label as placed in a box of `iw` columns: truncated when wider.
pub open spec fn fitted_label(label: Seq<char>, iw: nat) -> Seq<char> {
    if unicode_str_width(label) > iw {
        truncated(label, iw, 1)
    } else {
        label
    }
}

/// Content line of a box: `│ `, the label centred in `iw` columns, ` │`.
pub open spec fn box_label(label: Seq<char>, iw: nat) -> Seq<char> {
    let lab = fitted_label(label, iw);
    let total = sat_sub(iw, unicode_str_width(lab) as nat);
    let left = total / 2;
    let right = (total - left) as nat;
    seq!['\u{2502}', ' '] + rep(' ', left) + lab + rep(' ', right) + seq![' ', '\u{2502}']
}

/// The borders of a box of content width `iw` are narrow and `iw + 4`
/// characters long (the content line has the same length for a narrow label:
/// see `push_box_label`).
pub proof fn box_borders_have_equal_length(iw: nat)
    ensures
        box_top(iw).len() == iw + 4,
        box_bottom(iw).len() == iw + 4,
        narrow_text(box_top(iw)),
        narrow_text(box_bottom(iw)),
{
    assert forall|i: int| 0 <= i < box_top(iw).len() implies narrow_char(#[trigger] box_top(iw)[i]) by {
        if 1 <= i < iw + 3 {
            assert(box_top(iw)[i] == '\u{2500}');
        }
    }
    assert forall|i: int| 0 <= i < box_bottom(iw).len() implies narrow_char(#[trigger] box_bottom(iw)[i]) by {
        if 1 <= i < iw + 3 {
            assert(box_bottom(iw)[i] == '\u{2500}');
        }
    }
}

/// Append the top border of a box.
pub fn push_box_top(out: &mut Vec<char>, iw: usize)
    ensures
        final(out)@ == old(out)@ + box_top(iw as nat),
{
    out.push('\u{250C}');
    push_rep(out, '\u{2500}', iw);
    push_rep(out, '\u{2500}', 2);
    out.push('\u{2510}');
    assert(final(out)@ =~= old(out)@ + box_top(iw as nat));
}

/// Append the bottom border of a box.
pub fn push_box_bottom(out: &mut Vec<char>, iw: usize)
    ensures
        final(out)@ == old(out)@ + box_bottom(iw as nat),
{
    out.push('\u{2514}');
    push_rep(out, '\u{2500}', iw);
    push_rep(out, '\u{2500}', 2);
    out.push('\u{2518}');
    assert(final(out)@ =~= old(out)@ + box_bottom(iw as nat));
}

/// Append the content line of a box holding `label`.
///
/// For a narrow label (see `narrow_char`) the line is narrow and `iw + 4`
/// characters long, as long as the box's top and bottom borders.
pub fn push_box_label(out: &mut Vec<char>, label: &str, iw: usize)
    ensures
        final(out)@ == old(out)@ + box_label(label@, iw as nat),
        narrow_text(label@) ==> narrow_text(box_label(label@, iw as nat)) && box_label(label@, iw as nat).len()
            == iw + 4,
{
    let ghost start = out@;
    let lw0 = str_width(label);
    let lab: Vec<char> = if lw0 > iw {
        truncate_chars(label, iw, 1)
    } else {
        chars_of(label)
    };
    let lab_s = string_from_chars(&lab);
    let lw = str_width(lab_s.as_str());
    let total = if iw >= lw { iw - lw } else { 0 };
    let left = total / 2;
    let right = total - left;
    out.push('\u{2502}');
    out.push(' ');
    push_rep(out, ' ', left);
    push_all(out, &lab);
    push_rep(out, ' ', right);
    out.push(' ');
    out.push('\u{2502}');
    assert(final(out)@ =~= start + box_label(label@, iw as nat));
    proof {
        if narrow_text(label@) {
            assert(lab@ == fitted_label(label@, iw as nat));
            assert(lab@.len() <= iw);
            assert(lw == lab@.len());
            let bl = box_label(label@, iw as nat);
            assert forall|i: int| 0 <= i < bl.len() implies narrow_char(#[trigger] bl[i]) by {
                assert(bl[i] == final(out)@[start.len() + i]);
                if 2 + left <= i < 2 + left + lab@.len() {
                    assert(bl[i] == lab@[i - 2 - left]);
                }
            }
        }
    }
}

} // verus!

verus! {

/// Whether a character has the Unicode `White_Space` property, the test
/// `char::is_whitespace` makes: tab, line feed, vertical tab, form feed,
/// carriage return, space, U+0085, U+00A0, U+1680, U+2000 to U+200A, U+2028,
/// U+2029, U+202F, U+205F and U+3000.
pub open spec fn unicode_whitespace(c: char) -> bool {
    let u = c as u32;
    (0x09 <= u <= 0x0d) || u == 0x20 || u == 0x85 || u == 0xa0 || u == 0x1680 || (0x2000 <= u <= 0x200a)
        || u == 0x2028 || u == 0x2029 || u == 0x202f || u == 0x205f || u == 0x3000
}

/// Whether a character is white space (see `unicode_whitespace`).
pub(crate) fn is_whitespace(c: char) -> (b: bool)
    ensures
        b == unicode_whitespace(c),
{
    let u = c as u32;
    (0x09 <= u && u <= 0x0d) || u == 0x20 || u == 0x85 || u == 0xa0 || u == 0x1680 || (0x2000 <= u && u <= 0x200a)
        || u == 0x2028 || u == 0x2029 || u == 0x202f || u == 0x205f || u == 0x3000
}

/// `s` without its trailing white space.
pub open spec fn trim_end_ws(s: Seq<char>) -> Seq<char>
    decreases s.len(),
{
    if s.len() > 0 && unicode_whitespace(s.last()) {
        trim_end_ws(s.drop_last())
    } else {
        s
    }
}

/// Remove trailing white space.
pub fn pop_whitespace(out: &mut Vec<char>)
    ensures
        final(out)@ == trim_end_ws(old(out)@),
{
    while out.len() > 0 && is_whitespace(out[out.len() - 1])
        invariant
            trim_end_ws(out@) == trim_end_ws(old(out)@),
        decreases out.len(),
    {
        out.pop();
    }
}

} // verus!

verus! {

/// The decimal digit character of `d` (0 to 9).
pub open spec fn digit_char(d: nat) -> char {
    (('0' as u32) + d) as char
}

/// Decimal representation of `n`, without leading zeros.
pub open spec fn decimal(n: nat) -> Seq<char>
    decreases n,
{
    if n < 10 {
        seq![digit_char(n)]
    } else {
        decimal(n / 10).push(digit_char(n % 10))
    }
}

/// Decimal representation of `n`.
pub fn decimal_chars(n: u64) -> (r: Vec<char>)
    ensures
        r@ == decimal(n as nat),
    decreases n,
{
    let d = n % 10;
    let ch = if d == 0 {
        '0'
    } else if d == 1 {
        '1'
    } else if d == 2 {
        '2'
    } else if d == 3 {
        '3'
    } else if d == 4 {
        '4'
    } else if d == 5 {
        '5'
    } else if d == 6 {
        '6'
    } else if d == 7 {
        '7'
    } else if d == 8 {
        '8'
    } else {
        '9'
    };
    assert(ch == digit_char(d as nat));
    if n < 10 {
        let mut v: Vec<char> = Vec::new();
        v.push(ch);
        assert(v@ =~= seq![digit_char(n as nat)]);
        v
    } else {
        let mut v = decimal_chars(n / 10);
        v.push(ch);
        v
    }
}

} // verus!

verus! {

/// Number of characters after the last line feed of `s` (all of `s` when it
/// has none): the length of its unfinished last line.
pub open spec fn tail_run(s: Seq<char>) -> nat
    decreases s.len(),
{
    if s.len() == 0 {
        0
    } else if s.last() == '\n' {
        0
    } else {
        tail_run(s.drop_last()) + 1
    }
}

/// True when no line of `s` (maximal run of characters between line feeds)
/// is longer than `w` characters.
pub open spec fn lines_fit(s: Seq<char>, w: nat) -> bool
    decreases s.len(),
{
    if s.len() == 0 {
        true
    } else {
        lines_fit(s.drop_last(), w) && tail_run(s) <= w
    }
}

/// Appending a text without line feeds to a text whose last line is `t`
/// characters long gives a last line `t + x.len()` characters long; every
/// earlier line is unchanged.
proof fn lemma_append_line_part(a: Seq<char>, x: Seq<char>, w: nat)
    requires
        lines_fit(a, w),
        forall|i: int| 0 <= i < x.len() ==> x[i] != '\n',
        tail_run(a) + x.len() <= w,
    ensures
        lines_fit(a + x, w),
        tail_run(a + x) == tail_run(a) + x.len(),
    decreases x.len(),
{
    if x.len() == 0 {
        assert(a + x =~= a);
    } else {
        let y = x.drop_last();
        lemma_append_line_part(a, y, w);
        assert((a + x).drop_last() =~= a + y);
        assert((a + x).last() == x.last());
    }
}

/// Appending one finished line of at most `w` characters (narrow text, then a
/// line feed) after a finished line keeps every line within `w`.
pub proof fn lemma_append_line(a: Seq<char>, x: Seq<char>, w: nat)
    requires
        lines_fit(a, w),
        tail_run(a) == 0,
        narrow_text(x),
        x.len() <= w,
    ensures
        lines_fit(a + x + seq!['\n'], w),
        tail_run(a + x + seq!['\n']) == 0,
{
    assert forall|i: int| 0 <= i < x.len() implies x[i] != '\n' by {
        assert(narrow_char(x[i]));
    }
    lemma_append_line_part(a, x, w);
    let b = a + x + seq!['\n'];
    assert(b.drop_last() =~= a + x);
}

/// Removing trailing line feeds keeps every line within its bound.
pub proof fn lemma_trim_newlines_fit(s: Seq<char>, w: nat)
    requires
        lines_fit(s, w),
    ensures
        lines_fit(trim_newlines(s), w),
    decreases s.len(),
{
    if s.len() > 0 && s.last() == '\n' {
        lemma_trim_newlines_fit(s.drop_last(), w);
    }
}

} // verus!
