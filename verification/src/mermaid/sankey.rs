//! Renderer for sankey diagrams as a grouped arrow list: each source node is
//! a header line followed by one indented arc line per outgoing flow.

use vstd::prelude::*;
use crate::text::{
    chars_of, lemma_append_line, lemma_trim_newlines_fit, lines_fit, narrow_char, narrow_text, narrow_text_concat, pop_newlines,
    push_all, push_rep, rep, sat_sub, str_width, string_from_chars, tail_run, trim_newlines, truncate_chars, truncated,
    unicode_str_width,
};

verus! {

/// Column budget when none is given.
pub const DEFAULT_WIDTH: usize = 80;

/// Smallest column budget; narrower budgets are raised to it.
pub const MIN_WIDTH: usize = 20;

/// One flow: source node, target node and the amount, written with one
/// decimal place (as `format!("{:.1}", amount)` writes it).
pub struct SankeyFlow {
    pub source: String,
    pub target: String,
    pub value: String,
}

/// A parsed sankey diagram: its flows in source order.
pub struct Sankey {
    pub flows: Vec<SankeyFlow>,
}

impl Default for Sankey {
    fn default() -> (r: Self)
        ensures
            r.flows@.len() == 0,
    {
        Sankey { flows: Vec::new() }
    }
}

/// Distinct source names in first-seen order.
pub open spec fn sources_of(flows: Seq<SankeyFlow>) -> Seq<Seq<char>>
    decreases flows.len(),
{
    if flows.len() == 0 {
        Seq::empty()
    } else {
        let s = sources_of(flows.drop_last());
        if s.contains(flows.last().source@) {
            s
        } else {
            s.push(flows.last().source@)
        }
    }
}

/// The flows leaving `src`, in order.
pub open spec fn arcs_of(flows: Seq<SankeyFlow>, src: Seq<char>) -> Seq<SankeyFlow>
    decreases flows.len(),
{
    if flows.len() == 0 {
        Seq::empty()
    } else if flows.last().source@ == src {
        arcs_of(flows.drop_last(), src).push(flows.last())
    } else {
        arcs_of(flows.drop_last(), src)
    }
}

/// The groups' headers are the distinct source nodes in first-seen order:
/// every flow's source heads a group, every header is some flow's source, no
/// node heads two groups, and a header comes before another only if its
/// node occurs as a source before every flow leaving the other.
pub proof fn groups_follow_first_seen_sources(flows: Seq<SankeyFlow>)
    ensures
        forall|k: int| 0 <= k < flows.len() ==> sources_of(flows).contains((#[trigger] flows[k]).source@),
        forall|i: int|
            0 <= i < sources_of(flows).len() ==> exists|k: int|
                0 <= k < flows.len() && (#[trigger] flows[k]).source@ == #[trigger] sources_of(flows)[i],
        forall|i: int, j: int|
            0 <= i < j < sources_of(flows).len() ==> #[trigger] sources_of(flows)[i] != #[trigger] sources_of(flows)[j],
        forall|i: int, j: int, k: int|
            #![trigger sources_of(flows)[i], sources_of(flows)[j], flows[k]]
            0 <= i < j < sources_of(flows).len() && 0 <= k < flows.len() && flows[k].source@ == sources_of(flows)[j]
                ==> exists|m: int| 0 <= m < k && (#[trigger] flows[m]).source@ == sources_of(flows)[i],
    decreases flows.len(),
{
    if flows.len() > 0 {
        let f = flows.drop_last();
        groups_follow_first_seen_sources(f);
        let sp = sources_of(f);
        let s = sources_of(flows);
        let n = flows.len() - 1;
        let last = flows[n].source@;
        assert forall|k: int| 0 <= k < f.len() implies #[trigger] flows[k] == f[k] by {}
        assert forall|i: int| 0 <= i < sp.len() implies #[trigger] s[i] == sp[i] by {}
        assert forall|k: int| 0 <= k < flows.len() implies s.contains((#[trigger] flows[k]).source@) by {
            if k < n {
                assert(f[k] == flows[k]);
                assert(sp.contains(f[k].source@));
                let t = choose|t: int| 0 <= t < sp.len() && sp[t] == f[k].source@;
                assert(s[t] == sp[t]);
            } else if !sp.contains(last) {
                assert(s[sp.len() as int] == last);
            }
        }
        assert forall|i: int| 0 <= i < s.len() implies exists|k: int|
            0 <= k < flows.len() && (#[trigger] flows[k]).source@ == #[trigger] s[i] by {
            if i < sp.len() {
                let k = choose|k: int| 0 <= k < f.len() && (#[trigger] f[k]).source@ == sp[i];
                assert(flows[k] == f[k]);
            } else {
                assert(flows[n].source@ == s[i]);
            }
        }
        assert forall|i: int, j: int| 0 <= i < j < s.len() implies #[trigger] s[i] != #[trigger] s[j] by {
            if j < sp.len() {
                assert(sp[i] != sp[j]);
            } else {
                assert(s[j] == last);
                assert(!sp.contains(last));
                assert(sp[i] == s[i]);
            }
        }
        assert forall|i: int, j: int, k: int|
            #![trigger s[i], s[j], flows[k]]
            0 <= i < j < s.len() && 0 <= k < flows.len() && flows[k].source@ == s[j] implies exists|m: int|
                0 <= m < k && (#[trigger] flows[m]).source@ == s[i] by {
            let mi = choose|m: int| 0 <= m < f.len() && (#[trigger] f[m]).source@ == sp[i];
            assert(flows[mi] == f[mi]);
            if j < sp.len() {
                if k < n {
                    assert(f[k] == flows[k]);
                    let m2 = choose|m: int| 0 <= m < k && (#[trigger] f[m]).source@ == sp[i];
                    assert(flows[m2] == f[m2]);
                } else {
                    assert(mi < k);
                }
            } else {
                assert(s[j] == last && !sp.contains(last));
                if k < n {
                    assert(f[k] == flows[k]);
                    assert(sp.contains(f[k].source@));
                    assert(false);
                }
                assert(mi < k);
            }
        }
    }
}

/// Whether a flow leaves the node `src`.
pub open spec fn leaves(src: Seq<char>) -> spec_fn(SankeyFlow) -> bool {
    |f: SankeyFlow| f.source@ == src
}

/// A source's group lists exactly the flows that leave it, in their order:
/// every arc of the group starts at the group's node, and no flow leaving it
/// is missing (flows merely entering it are not listed).
pub proof fn arcs_are_the_flows_leaving_the_source(flows: Seq<SankeyFlow>, src: Seq<char>)
    ensures
        arcs_of(flows, src) == flows.filter(leaves(src)),
        forall|i: int| 0 <= i < arcs_of(flows, src).len() ==> (#[trigger] arcs_of(flows, src)[i]).source@ == src,
    decreases flows.len(),
{
    reveal(Seq::filter);
    if flows.len() > 0 {
        arcs_are_the_flows_leaving_the_source(flows.drop_last(), src);
        let prev = arcs_of(flows.drop_last(), src);
        if flows.last().source@ == src {
            assert forall|i: int| 0 <= i < arcs_of(flows, src).len() implies (#[trigger] arcs_of(flows, src)[i]).source@
                == src by {
                if i < prev.len() {
                    assert(arcs_of(flows, src)[i] == prev[i]);
                }
            }
        }
    }
}

/// Byte length of a string's UTF-8 encoding (as `str::len` reports it).
pub open spec fn byte_len(s: String) -> nat {
    (vstd::utf8::encode_utf8(s@).len() as usize) as nat
}

/// Longest value text, in bytes (1 when there are no flows).
pub open spec fn max_value_len(flows: Seq<SankeyFlow>) -> nat
    decreases flows.len(),
{
    if flows.len() == 0 {
        1
    } else if flows.len() == 1 {
        byte_len(flows[0].value)
    } else {
        let m = max_value_len(flows.drop_last());
        let l = byte_len(flows.last().value);
        if l > m { l } else { m }
    }
}

/// The line budget: the given width (at least `MIN_WIDTH`), else `DEFAULT_WIDTH`.
pub open spec fn line_budget(max_width: Option<usize>) -> nat {
    match max_width {
        Some(w) => if w > MIN_WIDTH { w as nat } else { MIN_WIDTH as nat },
        None => DEFAULT_WIDTH as nat,
    }
}

/// The fixed part of an arc line: `  ──[value]` followed by shaft dashes
/// that pad the value to `max_val_len` bytes, so every arrowhead lines up,
/// and `──► `.
pub open spec fn arc_prefix(value: String, max_val_len: nat) -> Seq<char> {
    seq![' ', ' ', '\u{2500}', '\u{2500}', '['] + value@ + seq![']'] + rep('\u{2500}', sat_sub(max_val_len, byte_len(value)))
        + seq!['\u{2500}', '\u{2500}', '\u{25BA}', ' ']
}

/// One arc line clamped to `width` columns: the prefix and the target
/// truncated to the rest of the budget, or the prefix itself truncated when
/// it alone is wider than the budget.
pub open spec fn arc_line(f: SankeyFlow, max_val_len: nat, width: nat) -> Seq<char> {
    let prefix = arc_prefix(f.value, max_val_len);
    if unicode_str_width(prefix) <= width {
        prefix + truncated(f.target@, (width - unicode_str_width(prefix)) as nat, 0)
    } else {
        truncated(prefix, width, 0)
    }
}

/// The arc lines of a sequence of flows, each ending in a line feed.
pub open spec fn arc_lines(arcs: Seq<SankeyFlow>, max_val_len: nat, width: nat) -> Seq<char>
    decreases arcs.len(),
{
    if arcs.len() == 0 {
        Seq::empty()
    } else {
        arc_lines(arcs.drop_last(), max_val_len, width) + arc_line(arcs.last(), max_val_len, width) + seq!['\n']
    }
}

/// The first `k` source groups: a blank line between groups, the truncated
/// source header, then its arc lines.
pub open spec fn source_groups(flows: Seq<SankeyFlow>, width: nat, k: nat) -> Seq<char>
    decreases k,
{
    if k == 0 {
        Seq::empty()
    } else {
        let src = sources_of(flows)[k - 1];
        source_groups(flows, width, (k - 1) as nat) + (if k > 1 { seq!['\n'] } else { Seq::empty() }) + truncated(
            src,
            width,
            0,
        ) + seq!['\n'] + arc_lines(arcs_of(flows, src), max_value_len(flows), width)
    }
}

/// True when every flow's source, target and value are narrow text (see
/// `narrow_char`).
pub open spec fn narrow_flows(flows: Seq<SankeyFlow>) -> bool {
    forall|i: int|
        0 <= i < flows.len() ==> narrow_text((#[trigger] flows[i]).source@) && narrow_text(flows[i].target@)
            && narrow_text(flows[i].value@)
}

/// Rendered text of a sankey diagram: a placeholder when it has no flows,
/// else one group per source in first-seen order, without trailing line feeds.
pub open spec fn sankey_text(diag: Sankey, max_width: Option<usize>) -> Seq<char> {
    let flows = diag.flows@;
    if flows.len() == 0 {
        "(empty sankey diagram)"@
    } else {
        trim_newlines(source_groups(flows, line_budget(max_width), sources_of(flows).len()))
    }
}

} // verus!

verus! {

/// The views of a sequence of string references.
pub open spec fn views(s: Seq<&String>) -> Seq<Seq<char>> {
    s.map_values(|x: &String| x@)
}

/// Format a single arc line: `  ──[value]──► target`, clamped to the budget.
///
/// With a narrow value and target (see `narrow_char`) the line is narrow and
/// at most `max_width` characters long.
fn format_arc(flow: &SankeyFlow, max_val_len: usize, max_width: usize) -> (r: Vec<char>)
    ensures
        r@ == arc_line(*flow, max_val_len as nat, max_width as nat),
        narrow_text(flow.value@) && narrow_text(flow.target@) ==> narrow_text(r@) && r@.len() <= max_width,
{
    let vlen = flow.value.as_str().len();
    let pad = max_val_len.saturating_sub(vlen);
    let mut prefix: Vec<char> = Vec::new();
    prefix.push(' ');
    prefix.push(' ');
    prefix.push('\u{2500}');
    prefix.push('\u{2500}');
    prefix.push('[');
    let v = chars_of(flow.value.as_str());
    push_all(&mut prefix, &v);
    prefix.push(']');
    push_rep(&mut prefix, '\u{2500}', pad);
    prefix.push('\u{2500}');
    prefix.push('\u{2500}');
    prefix.push('\u{25BA}');
    prefix.push(' ');
    assert(prefix@ =~= arc_prefix(flow.value, max_val_len as nat));
    proof {
        if narrow_text(flow.value@) {
            let p = prefix@;
            let vl = flow.value@.len();
            assert forall|i: int| 0 <= i < p.len() implies narrow_char(#[trigger] p[i]) by {
                if 5 <= i < 5 + vl {
                    assert(p[i] == flow.value@[i - 5]);
                } else if 6 + vl <= i < 6 + vl + pad {
                    assert(p[i] == '\u{2500}');
                }
            }
        }
    }
    let prefix_s = string_from_chars(prefix.as_slice());
    let prefix_w = str_width(prefix_s.as_str());
    if prefix_w <= max_width {
        let t = truncate_chars(flow.target.as_str(), max_width - prefix_w, 0);
        let ghost p0 = prefix@;
        push_all(&mut prefix, &t);
        proof {
            if narrow_text(flow.value@) && narrow_text(flow.target@) {
                narrow_text_concat(p0, t@);
            }
        }
        prefix
    } else {
        truncate_chars(prefix_s.as_str(), max_width, 0)
    }
}

/// Whether `name` is among the collected source names.
fn contains_name(names: &Vec<&String>, name: &String) -> (b: bool)
    ensures
        b == views(names@).contains(name@),
{
    let mut i: usize = 0;
    while i < names.len()
        invariant
            i <= names.len(),
            forall|j: int| 0 <= j < i ==> names@[j]@ != name@,
        decreases names.len() - i,
    {
        if names[i].eq(name) {
            assert(views(names@)[i as int] == name@);
            return true;
        }
        i += 1;
    }
    assert forall|j: int| 0 <= j < views(names@).len() implies views(names@)[j] != name@ by {
        assert(views(names@)[j] == names@[j]@);
    }
    false
}

/// Append the arc lines of the flows leaving `src`.
fn push_arcs(out: &mut Vec<char>, flows: &Vec<SankeyFlow>, src: &String, max_val_len: usize, width: usize)
    ensures
        final(out)@ == old(out)@ + arc_lines(arcs_of(flows@, src@), max_val_len as nat, width as nat),
        narrow_flows(flows@) && lines_fit(old(out)@, width as nat) && tail_run(old(out)@) == 0 ==> lines_fit(
            final(out)@,
            width as nat,
        ) && tail_run(final(out)@) == 0,
{
    let ghost start = out@;
    let mut k: usize = 0;
    while k < flows.len()
        invariant
            k <= flows.len(),
            out@ == start + arc_lines(arcs_of(flows@.take(k as int), src@), max_val_len as nat, width as nat),
            narrow_flows(flows@) && lines_fit(start, width as nat) && tail_run(start) == 0 ==> lines_fit(
                out@,
                width as nat,
            ) && tail_run(out@) == 0,
        decreases flows.len() - k,
    {
        assert(flows@.take(k + 1).drop_last() =~= flows@.take(k as int));
        assert(flows@.take(k + 1).last() == flows@[k as int]);
        let ghost prev_arcs = arcs_of(flows@.take(k as int), src@);
        if flows[k].source.eq(src) {
            let line = format_arc(&flows[k], max_val_len, width);
            let ghost o0 = out@;
            push_all(out, &line);
            out.push('\n');
            proof {
                if narrow_flows(flows@) && lines_fit(start, width as nat) && tail_run(start) == 0 {
                    assert(narrow_text(flows@[k as int].value@));
                    lemma_append_line(o0, line@, width as nat);
                    assert(out@ =~= o0 + line@ + seq!['\n']);
                }
            }
            assert(arcs_of(flows@.take(k + 1), src@) == prev_arcs.push(flows@[k as int]));
            assert(prev_arcs.push(flows@[k as int]).drop_last() =~= prev_arcs);
        } else {
            assert(arcs_of(flows@.take(k + 1), src@) == prev_arcs);
        }
        k += 1;
        assert(out@ =~= start + arc_lines(arcs_of(flows@.take(k as int), src@), max_val_len as nat, width as nat));
    }
    assert(flows@.take(flows.len() as int) =~= flows@);
}

/// Render a sankey diagram as a grouped arrow list.
///
/// `max_width` is an optional column budget (raised to at least `MIN_WIDTH`);
/// header and arc lines are truncated with `…` to fit it: when the names and
/// values are narrow text (see `narrow_char`), no line of a non-empty
/// diagram is longer than the budget.
pub fn render(diag: &Sankey, max_width: Option<usize>) -> (r: String)
    ensures
        r@ == sankey_text(*diag, max_width),
        diag.flows@.len() > 0 && narrow_flows(diag.flows@) ==> lines_fit(r@, line_budget(max_width)),
{
    let width = match max_width {
        Some(w) => if w > MIN_WIDTH { w } else { MIN_WIDTH },
        None => DEFAULT_WIDTH,
    };
    if diag.flows.len() == 0 {
        let e = chars_of("(empty sankey diagram)");
        return string_from_chars(e.as_slice());
    }
    let flows = &diag.flows;
    let mut sources: Vec<&String> = Vec::new();
    let mut i: usize = 0;
    while i < flows.len()
        invariant
            i <= flows.len(),
            views(sources@) == sources_of(flows@.take(i as int)),
            narrow_flows(flows@) ==> forall|q: int| 0 <= q < sources@.len() ==> narrow_text(#[trigger] sources@[q]@),
        decreases flows.len() - i,
    {
        assert(flows@.take(i + 1).drop_last() =~= flows@.take(i as int));
        if !contains_name(&sources, &flows[i].source) {
            sources.push(&flows[i].source);
        }
        i += 1;
        assert(views(sources@) =~= sources_of(flows@.take(i as int)));
    }
    assert(flows@.take(flows.len() as int) =~= flows@);
    let mut max_val_len: usize = flows[0].value.as_str().len();
    let mut m: usize = 1;
    assert(flows@.take(1) =~= seq![flows@[0]]);
    while m < flows.len()
        invariant
            1 <= m <= flows.len(),
            max_val_len == max_value_len(flows@.take(m as int)),
        decreases flows.len() - m,
    {
        assert(flows@.take(m + 1).drop_last() =~= flows@.take(m as int));
        let l = flows[m].value.as_str().len();
        if l > max_val_len {
            max_val_len = l;
        }
        m += 1;
    }
    let mut out: Vec<char> = Vec::new();
    let mut j: usize = 0;
    while j < sources.len()
        invariant
            j <= sources.len(),
            views(sources@) == sources_of(flows@),
            max_val_len == max_value_len(flows@),
            width == line_budget(max_width),
            out@ == source_groups(flows@, width as nat, j as nat),
            narrow_flows(flows@) ==> forall|q: int| 0 <= q < sources@.len() ==> narrow_text(#[trigger] sources@[q]@),
            narrow_flows(flows@) ==> lines_fit(out@, width as nat) && tail_run(out@) == 0,
        decreases sources.len() - j,
    {
        if j > 0 {
            let ghost o0 = out@;
            out.push('\n');
            proof {
                if narrow_flows(flows@) {
                    lemma_append_line(o0, Seq::empty(), width as nat);
                    assert(out@ =~= o0 + Seq::<char>::empty() + seq!['\n']);
                }
            }
        }
        let src: &String = sources[j];
        assert(src@ == sources_of(flows@)[j as int]);
        let header = truncate_chars(src.as_str(), width, 0);
        let ghost o1 = out@;
        push_all(&mut out, &header);
        out.push('\n');
        proof {
            if narrow_flows(flows@) {
                assert(narrow_text(sources@[j as int]@));
                lemma_append_line(o1, header@, width as nat);
                assert(out@ =~= o1 + header@ + seq!['\n']);
            }
        }
        push_arcs(&mut out, flows, src, max_val_len, width);
        j += 1;
        assert(out@ =~= source_groups(flows@, width as nat, j as nat));
    }
    let ghost before = out@;
    pop_newlines(&mut out);
    proof {
        if narrow_flows(flows@) {
            lemma_trim_newlines_fit(before, width as nat);
        }
    }
    string_from_chars(out.as_slice())
}

} // verus!
