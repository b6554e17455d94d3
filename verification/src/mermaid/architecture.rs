//! Renderer for architecture diagrams: groups become labelled border boxes
//! holding a row of service boxes, top-level services form a standalone row,
//! and edges are listed in a "Connections:" summary below.

use vstd::prelude::*;
use crate::text::{box_borders_have_equal_length, lemma_append_line, lemma_rep_narrow, lemma_trim_newlines_fit, lines_fit, narrow_char, narrow_text, narrow_text_concat, tail_run, box_bottom, box_label, box_top, chars_of, fitted_label, pad_to, padded, pop_newlines, push_all, push_box_bottom, push_box_label, push_box_top, push_rep, rep, sat_add, sat_sub, str_width, string_from_chars, trim_newlines, truncate_chars, unicode_str_width};

verus! {

/// Padding between adjacent service boxes.
pub const SERVICE_GAP: usize = 2;

/// Natural inner width of a service box.
pub const SERVICE_INNER_W: usize = 10;

/// Spaces inside a group border on each side of the service row.
pub const GROUP_PADDING: usize = 2;

/// Side of a service that an edge attaches to.
#[derive(Clone, Copy, Debug, PartialEq, Eq)]
pub enum ArchPort {
    Left,
    Right,
    Top,
    Bottom,
}

impl ArchPort {
    /// One-letter abbreviation used in the connection summary.
    pub open spec fn spec_abbreviation(self) -> char {
        match self {
            ArchPort::Left => 'L',
            ArchPort::Right => 'R',
            ArchPort::Top => 'T',
            ArchPort::Bottom => 'B',
        }
    }

    /// One-letter abbreviation used in the connection summary (`L`, `R`, `T`, `B`).
    pub fn abbreviation(&self) -> (c: char)
        ensures
            c == self.spec_abbreviation(),
    {
        match self {
            ArchPort::Left => 'L',
            ArchPort::Right => 'R',
            ArchPort::Top => 'T',
            ArchPort::Bottom => 'B',
        }
    }
}

/// A service node, optionally placed inside a group.
pub struct ArchService {
    pub id: String,
    pub icon: Option<String>,
    pub label: Option<String>,
    pub in_group: Option<String>,
}

/// A group of services drawn as a labelled border box.
pub struct ArchGroup {
    pub id: String,
    pub icon: Option<String>,
    pub label: Option<String>,
}

/// A connection between two services, with optional attachment sides.
pub struct ArchEdge {
    pub source: String,
    pub source_port: Option<ArchPort>,
    pub target: String,
    pub target_port: Option<ArchPort>,
}

/// A parsed architecture diagram.
pub struct Architecture {
    pub groups: Vec<ArchGroup>,
    pub services: Vec<ArchService>,
    pub edges: Vec<ArchEdge>,
}

impl Default for Architecture {
    fn default() -> (r: Self)
        ensures
            r.groups@.len() == 0,
            r.services@.len() == 0,
            r.edges@.len() == 0,
    {
        Architecture { groups: Vec::new(), services: Vec::new(), edges: Vec::new() }
    }
}

/// Label shown inside a service box: the label when present, else the id.
pub open spec fn label_of(s: ArchService) -> Seq<char> {
    match s.label {
        Some(l) => l@,
        None => s.id@,
    }
}

impl ArchService {
    /// Label shown inside the service box: the label when present, else the id.
    pub fn display_label(&self) -> (r: &str)
        ensures
            r@ == label_of(*self),
    {
        match &self.label {
            Some(l) => l.as_str(),
            None => self.id.as_str(),
        }
    }
}

/// The services of a sequence that belong to no group, in order.
pub open spec fn top_level(s: Seq<ArchService>) -> Seq<ArchService>
    decreases s.len(),
{
    if s.len() == 0 {
        Seq::empty()
    } else if s.last().in_group is None {
        top_level(s.drop_last()).push(s.last())
    } else {
        top_level(s.drop_last())
    }
}

/// The services of a sequence placed in the group `gid`, in order.
pub open spec fn members(s: Seq<ArchService>, gid: Seq<char>) -> Seq<ArchService>
    decreases s.len(),
{
    if s.len() == 0 {
        Seq::empty()
    } else if s.last().in_group matches Some(g) && g@ == gid {
        members(s.drop_last(), gid).push(s.last())
    } else {
        members(s.drop_last(), gid)
    }
}

/// The services of a group have narrow labels when all services do.
proof fn lemma_members_narrow(s: Seq<ArchService>, gid: Seq<char>)
    requires
        narrow_labels(s),
    ensures
        narrow_labels(members(s, gid)),
    decreases s.len(),
{
    if s.len() > 0 {
        assert(narrow_labels(s.drop_last())) by {
            assert forall|i: int| 0 <= i < s.drop_last().len() implies narrow_text(label_of(#[trigger] s.drop_last()[i])) by {
                assert(s.drop_last()[i] == s[i]);
            }
        }
        lemma_members_narrow(s.drop_last(), gid);
        assert(narrow_text(label_of(s[s.len() - 1])));
    }
}

/// The top-level services have narrow labels when all services do.
proof fn lemma_top_level_narrow(s: Seq<ArchService>)
    requires
        narrow_labels(s),
    ensures
        narrow_labels(top_level(s)),
    decreases s.len(),
{
    if s.len() > 0 {
        assert(narrow_labels(s.drop_last())) by {
            assert forall|i: int| 0 <= i < s.drop_last().len() implies narrow_text(label_of(#[trigger] s.drop_last()[i])) by {
                assert(s.drop_last()[i] == s[i]);
            }
        }
        lemma_top_level_narrow(s.drop_last());
        assert(narrow_text(label_of(s[s.len() - 1])));
    }
}

/// The services behind a sequence of references.
pub open spec fn deref_all(s: Seq<&ArchService>) -> Seq<ArchService> {
    s.map_values(|x: &ArchService| *x)
}

impl Architecture {
    /// Services that belong to no group, in declaration order.
    pub fn top_level_services(&self) -> (r: Vec<&ArchService>)
        ensures
            deref_all(r@) == top_level(self.services@),
    {
        let mut r: Vec<&ArchService> = Vec::new();
        let mut i: usize = 0;
        while i < self.services.len()
            invariant
                i <= self.services.len(),
                deref_all(r@) == top_level(self.services@.take(i as int)),
            decreases self.services.len() - i,
        {
            assert(self.services@.take(i + 1).drop_last() =~= self.services@.take(i as int));
            if self.services[i].in_group.is_none() {
                r.push(&self.services[i]);
            }
            i += 1;
            assert(deref_all(r@) =~= top_level(self.services@.take(i as int)));
        }
        assert(self.services@.take(self.services.len() as int) =~= self.services@);
        r
    }

    /// Services placed in the group `gid`, in declaration order.
    pub fn services_in_group(&self, gid: &String) -> (r: Vec<&ArchService>)
        ensures
            deref_all(r@) == members(self.services@, gid@),
    {
        let mut r: Vec<&ArchService> = Vec::new();
        let mut i: usize = 0;
        while i < self.services.len()
            invariant
                i <= self.services.len(),
                deref_all(r@) == members(self.services@.take(i as int), gid@),
            decreases self.services.len() - i,
        {
            assert(self.services@.take(i + 1).drop_last() =~= self.services@.take(i as int));
            let inside = match &self.services[i].in_group {
                Some(g) => g.eq(gid),
                None => false,
            };
            assert(inside == (self.services@[i as int].in_group matches Some(g) && g@ == gid@));
            if inside {
                r.push(&self.services[i]);
            }
            i += 1;
            assert(deref_all(r@) =~= members(self.services@.take(i as int), gid@));
        }
        assert(self.services@.take(self.services.len() as int) =~= self.services@);
        r
    }
}

} // verus!

verus! {

/// Widest display label among the services (0 for none).
pub open spec fn max_label_width(s: Seq<ArchService>) -> nat
    decreases s.len(),
{
    if s.len() == 0 {
        0
    } else {
        let rest = max_label_width(s.drop_last());
        let w = unicode_str_width(label_of(s.last())) as nat;
        if w > rest {
            w
        } else {
            rest
        }
    }
}

/// Content width of every service box in a row: the widest label (at least
/// `SERVICE_INNER_W`), shrunk so that the whole row fits the budget, never
/// below one column.
pub open spec fn service_inner_width(s: Seq<ArchService>, max_width: Option<usize>) -> nat {
    let m = max_label_width(s);
    let natural = if m > SERVICE_INNER_W { m } else { SERVICE_INNER_W as nat };
    match max_width {
        None => natural,
        Some(budget) => {
            let n = s.len();
            if n == 0 {
                natural
            } else {
                let overhead = (n - 1) * SERVICE_GAP + n * 4;
                if budget <= overhead {
                    1
                } else {
                    let allowed = ((budget - overhead) / (n as int)) as nat;
                    let w = if natural < allowed { natural } else { allowed };
                    if w > 1 { w } else { 1 }
                }
            }
        }
    }
}

/// The three lines (top border, labels, bottom border) of a row of service
/// boxes of content width `iw`, separated by `SERVICE_GAP` spaces.
pub open spec fn service_row(s: Seq<ArchService>, iw: nat) -> (Seq<char>, Seq<char>, Seq<char>)
    decreases s.len(),
{
    if s.len() == 0 {
        (Seq::empty(), Seq::empty(), Seq::empty())
    } else {
        let (t, m, b) = service_row(s.drop_last(), iw);
        let gap = if s.len() > 1 { rep(' ', SERVICE_GAP as nat) } else { Seq::empty() };
        (
            t + gap + box_top(iw),
            m + gap + box_label(label_of(s.last()), iw),
            b + gap + box_bottom(iw),
        )
    }
}

/// Width of a row of `n` service boxes of content width `iw`.
pub open spec fn row_width(n: nat, iw: nat) -> nat {
    if n == 0 {
        0
    } else {
        (n * (iw + 4) + (n - 1) * SERVICE_GAP) as nat
    }
}

proof fn lemma_row_top_len(s: Seq<ArchService>, iw: nat)
    ensures
        service_row(s, iw).0.len() == row_width(s.len(), iw),
    decreases s.len(),
{
    if s.len() > 0 {
        lemma_row_top_len(s.drop_last(), iw);
        let n = s.len();
        assert(row_width(n, iw) == (if n == 1 { 0 } else { row_width((n - 1) as nat, iw) + SERVICE_GAP }) + iw + 4)
            by (nonlinear_arith)
            requires
                n >= 1,
                row_width(n, iw) == (n * (iw + 4) + (n - 1) * SERVICE_GAP) as nat,
                n > 1 ==> row_width((n - 1) as nat, iw) == ((n - 1) * (iw + 4) + (n - 2) * SERVICE_GAP) as nat,
        ;
    }
}

/// True when every service's label is narrow text (see `narrow_char`).
pub open spec fn narrow_labels(s: Seq<ArchService>) -> bool {
    forall|i: int| 0 <= i < s.len() ==> narrow_text(label_of(#[trigger] s[i]))
}

/// A row of service boxes fits its column budget whenever the budget leaves
/// at least one column of content per box besides the borders and gaps.
pub proof fn service_row_fits_budget(s: Seq<ArchService>, budget: usize)
    requires
        s.len() > 0,
        budget >= (s.len() - 1) * SERVICE_GAP + s.len() * 4 + s.len(),
    ensures
        row_width(s.len(), service_inner_width(s, Some(budget))) <= budget,
{
    let n = s.len();
    let overhead = (n - 1) * SERVICE_GAP + n * 4;
    let allowed = ((budget - overhead) / (n as int)) as nat;
    let iw = service_inner_width(s, Some(budget));
    assert(allowed >= 1 && n * allowed <= budget - overhead) by (nonlinear_arith)
        requires
            n >= 1,
            budget - overhead >= n,
            allowed == (budget - overhead) / (n as int),
    ;
    assert(iw <= allowed);
    assert(n * iw <= n * allowed) by (nonlinear_arith)
        requires
            iw <= allowed,
            n >= 1,
    ;
    assert(row_width(n, iw) == n * iw + overhead) by (nonlinear_arith)
        requires
            n >= 1,
            row_width(n, iw) == (n * (iw + 4) + (n - 1) * SERVICE_GAP) as nat,
            overhead == (n - 1) * SERVICE_GAP + n * 4,
    ;
}

/// Natural content width for the service boxes of a row (see `service_inner_width`).
fn effective_service_inner_w(services: &Vec<&ArchService>, max_width: Option<usize>) -> (r: usize)
    ensures
        r == service_inner_width(deref_all(services@), max_width),
{
    let ghost s = deref_all(services@);
    let mut m: usize = 0;
    let mut i: usize = 0;
    while i < services.len()
        invariant
            i <= services.len(),
            s == deref_all(services@),
            m == max_label_width(s.take(i as int)),
        decreases services.len() - i,
    {
        assert(s.take(i + 1).drop_last() =~= s.take(i as int));
        let w = str_width(services[i].display_label());
        if w > m {
            m = w;
        }
        i += 1;
    }
    assert(s.take(services.len() as int) =~= s);
    let natural = if m > SERVICE_INNER_W { m } else { SERVICE_INNER_W };
    match max_width {
        None => natural,
        Some(budget) => {
            let n = services.len();
            if n == 0 {
                return natural;
            }
            let n128 = n as u128;
            assert(n128 <= 0x1_0000_0000_0000_0000);
            let overhead: u128 = (n128 - 1) * 2 + n128 * 4;
            if (budget as u128) <= overhead {
                return 1;
            }
            let allowed = ((budget as u128 - overhead) / (n as u128)) as usize;
            let w = if natural < allowed { natural } else { allowed };
            if w > 1 { w } else { 1 }
        }
    }
}

/// Build the top, label and bottom lines of a row of service boxes.
fn build_service_row_lines(services: &Vec<&ArchService>, max_width: Option<usize>) -> (r: (Vec<char>, Vec<char>, Vec<char>))
    ensures
        (r.0@, r.1@, r.2@) == service_row(
            deref_all(services@),
            service_inner_width(deref_all(services@), max_width),
        ),
        narrow_text(r.0@),
        narrow_text(r.2@),
        narrow_labels(deref_all(services@)) ==> {
            &&& narrow_text(r.1@)
            &&& r.1@.len() == r.0@.len()
            &&& r.2@.len() == r.0@.len()
            &&& r.0@.len() == row_width(services@.len(), service_inner_width(deref_all(services@), max_width))
        },
{
    let iw = effective_service_inner_w(services, max_width);
    let ghost s = deref_all(services@);
    let mut top: Vec<char> = Vec::new();
    let mut mid: Vec<char> = Vec::new();
    let mut bot: Vec<char> = Vec::new();
    let mut i: usize = 0;
    while i < services.len()
        invariant
            i <= services.len(),
            s == deref_all(services@),
            (top@, mid@, bot@) == service_row(s.take(i as int), iw as nat),
            bot@.len() == top@.len(),
            narrow_labels(s) ==> mid@.len() == top@.len(),
            narrow_text(top@),
            narrow_text(bot@),
            narrow_labels(s) ==> narrow_text(mid@),
        decreases services.len() - i,
    {
        assert(s.take(i + 1).drop_last() =~= s.take(i as int));
        let ghost (t0, m0, b0) = (top@, mid@, bot@);
        if i > 0 {
            push_rep(&mut top, ' ', SERVICE_GAP);
            push_rep(&mut mid, ' ', SERVICE_GAP);
            push_rep(&mut bot, ' ', SERVICE_GAP);
        }
        let ghost (t1, m1, b1) = (top@, mid@, bot@);
        proof {
            lemma_rep_narrow(' ', SERVICE_GAP as nat);
            if i > 0 {
                narrow_text_concat(t0, rep(' ', SERVICE_GAP as nat));
                narrow_text_concat(b0, rep(' ', SERVICE_GAP as nat));
                if narrow_labels(s) {
                    narrow_text_concat(m0, rep(' ', SERVICE_GAP as nat));
                }
            }
        }
        push_box_top(&mut top, iw);
        push_box_label(&mut mid, services[i].display_label(), iw);
        push_box_bottom(&mut bot, iw);
        proof {
            box_borders_have_equal_length(iw as nat);
            assert(s[i as int] == *services@[i as int]);
            narrow_text_concat(t1, box_top(iw as nat));
            narrow_text_concat(b1, box_bottom(iw as nat));
            if narrow_labels(s) {
                narrow_text_concat(m1, box_label(label_of(s[i as int]), iw as nat));
            }
        }
        i += 1;
        assert(top@ =~= service_row(s.take(i as int), iw as nat).0);
        assert(mid@ =~= service_row(s.take(i as int), iw as nat).1);
        assert(bot@ =~= service_row(s.take(i as int), iw as nat).2);
    }
    assert(s.take(services.len() as int) =~= s);
    proof {
        lemma_row_top_len(s, iw as nat);
    }
    (top, mid, bot)
}

/// Total display width of a row of service boxes.
fn service_row_width(services: &Vec<&ArchService>, max_width: Option<usize>) -> (r: usize)
    requires
        row_width(services@.len(), service_inner_width(deref_all(services@), max_width)) <= usize::MAX,
    ensures
        r == row_width(services@.len(), service_inner_width(deref_all(services@), max_width)),
{
    let n = services.len();
    if n == 0 {
        return 0;
    }
    let inner_w = effective_service_inner_w(services, max_width);
    proof {
        assert(n * (inner_w + 4) <= row_width(n as nat, inner_w as nat)) by (nonlinear_arith)
            requires
                n >= 1,
                row_width(n as nat, inner_w as nat) == (n * (inner_w + 4) + (n - 1) * SERVICE_GAP) as nat,
        ;
        assert(inner_w + 4 <= n * (inner_w + 4)) by (nonlinear_arith)
            requires n >= 1;
    }
    n * (inner_w + 4) + (n - 1) * SERVICE_GAP
}

} // verus!

verus! {

/// Title of a group: its non-empty label (else its id), followed by the
/// non-empty icon name in parentheses.
pub open spec fn title_of(g: ArchGroup) -> Seq<char> {
    let name = match g.label {
        Some(l) => if l@.len() > 0 { l@ } else { g.id@ },
        None => g.id@,
    };
    match g.icon {
        Some(i) => if i@.len() > 0 { name + seq![' ', '('] + i@ + seq![')'] } else { name },
        None => name,
    }
}

/// Human-readable title for a group: `Label (icon)`, `Label`, or the id.
fn group_title(group: &ArchGroup) -> (r: Vec<char>)
    ensures
        r@ == title_of(*group),
{
    let mut name = match &group.label {
        Some(l) => if !l.as_str().is_empty() { chars_of(l.as_str()) } else { chars_of(group.id.as_str()) },
        None => chars_of(group.id.as_str()),
    };
    match &group.icon {
        Some(icon) => {
            if !icon.as_str().is_empty() {
                name.push(' ');
                name.push('(');
                let ic = chars_of(icon.as_str());
                push_all(&mut name, &ic);
                name.push(')');
            }
        },
        None => {},
    }
    name
}

} // verus!

verus! {

/// A service-box line framed inside a group: wall, padding, the line padded
/// to `avail` columns, padding, wall, line feed.
pub open spec fn framed(row: Seq<char>, avail: nat) -> Seq<char> {
    seq!['\u{2502}'] + rep(' ', GROUP_PADDING as nat) + padded(row, avail) + rep(' ', GROUP_PADDING as nat)
        + seq!['\u{2502}', '\n']
}

/// The title shown in a group's top border: with a budget, a title wider
/// than the budget minus the five columns of border around it is truncated
/// with `…`.
pub open spec fn shown_title(g: ArchGroup, max_width: Option<usize>) -> Seq<char> {
    match max_width {
        Some(budget) => fitted_label(title_of(g), sat_sub(budget as nat, 5)),
        None => title_of(g),
    }
}

/// Content width (between the walls) of a group's border box.
pub open spec fn group_inner_width(g: ArchGroup, diag: Architecture, max_width: Option<usize>) -> nat {
    let svcs = members(diag.services@, g.id@);
    let iw = service_inner_width(svcs, max_width);
    let title_min = sat_add(unicode_str_width(shown_title(g, max_width)) as nat, 3);
    let natural = if svcs.len() == 0 {
        if title_min > 4 { title_min } else { 4 }
    } else {
        let w = sat_add(row_width(svcs.len(), iw), (2 * GROUP_PADDING) as nat);
        if w > title_min { w } else { title_min }
    };
    match max_width {
        Some(budget) => {
            let capped = if natural < sat_sub(budget as nat, 2) { natural } else { sat_sub(budget as nat, 2) };
            if capped > title_min { capped } else { title_min }
        },
        None => natural,
    }
}

/// Titled top border of a group box whose content area is `inner` columns.
pub open spec fn group_top(title: Seq<char>, inner: nat) -> Seq<char> {
    seq!['\u{250C}', '\u{2500}', ' '] + title + seq![' ']
        + rep('\u{2500}', sat_sub(inner, sat_add(unicode_str_width(title) as nat, 3))) + seq!['\u{2510}', '\n']
}

/// Bottom border of a group box whose content area is `inner` columns.
pub open spec fn group_bottom(inner: nat) -> Seq<char> {
    seq!['\u{2514}'] + rep('\u{2500}', inner) + seq!['\u{2518}', '\n']
}

/// Lines between the borders of a group box: a blank line when the group has
/// no services, else the three framed service-box lines.
pub open spec fn group_body(g: ArchGroup, diag: Architecture, max_width: Option<usize>, inner: nat) -> Seq<char> {
    let svcs = members(diag.services@, g.id@);
    let avail = sat_sub(inner, (2 * GROUP_PADDING) as nat);
    let rows = service_row(svcs, service_inner_width(svcs, max_width));
    if svcs.len() == 0 {
        seq!['\u{2502}'] + rep(' ', inner) + seq!['\u{2502}', '\n']
    } else {
        framed(rows.0, avail) + framed(rows.1, avail) + framed(rows.2, avail)
    }
}

/// The text of one group: titled top border, body, bottom border.
pub open spec fn group_block(g: ArchGroup, diag: Architecture, max_width: Option<usize>) -> Seq<char> {
    let inner = group_inner_width(g, diag, max_width);
    group_top(shown_title(g, max_width), inner) + group_body(g, diag, max_width, inner) + group_bottom(inner)
}

/// A row of standalone service boxes, one line each for the top border, the
/// labels and the bottom border.
pub open spec fn standalone_row(s: Seq<ArchService>, max_width: Option<usize>) -> Seq<char> {
    let rows = service_row(s, service_inner_width(s, max_width));
    rows.0 + seq!['\n'] + rows.1 + seq!['\n'] + rows.2 + seq!['\n']
}

/// `f` is one line of `len` narrow characters followed by a line feed.
pub open spec fn narrow_line(f: Seq<char>, len: nat) -> bool {
    &&& f.len() == len + 1
    &&& f.last() == '\n'
    &&& narrow_text(f.drop_last())
}

/// A narrow text of at most `w` characters, then a line feed, appended after a
/// finished line keeps every line within `w`.
proof fn lemma_append_narrow_line(a: Seq<char>, f: Seq<char>, len: nat, w: nat)
    requires
        lines_fit(a, w),
        tail_run(a) == 0,
        narrow_line(f, len),
        len <= w,
    ensures
        lines_fit(a + f, w),
        tail_run(a + f) == 0,
{
    lemma_append_line(a, f.drop_last(), w);
    assert(a + f.drop_last() + seq!['\n'] =~= a + f);
}

fn push_framed(out: &mut Vec<char>, row: &Vec<char>, avail: usize)
    ensures
        final(out)@ == old(out)@ + framed(row@, avail as nat),
        narrow_text(row@) ==> narrow_line(framed(row@, avail as nat), (avail + 6) as nat),
{
    let ghost start = out@;
    let row_s = string_from_chars(row.as_slice());
    out.push('\u{2502}');
    push_rep(out, ' ', GROUP_PADDING);
    let p = pad_to(row_s.as_str(), avail);
    push_all(out, &p);
    push_rep(out, ' ', GROUP_PADDING);
    out.push('\u{2502}');
    out.push('\n');
    assert(final(out)@ =~= start + framed(row@, avail as nat));
    proof {
        if narrow_text(row@) {
            let f = framed(row@, avail as nat);
            let pad = rep(' ', GROUP_PADDING as nat);
            let wall = seq!['\u{2502}'];
            lemma_rep_narrow(' ', GROUP_PADDING as nat);
            assert(narrow_text(wall)) by {
                assert(narrow_char(wall[0]));
            }
            narrow_text_concat(wall, pad);
            narrow_text_concat(wall + pad, p@);
            narrow_text_concat(wall + pad + p@, pad);
            narrow_text_concat(wall + pad + p@ + pad, wall);
            assert(f.drop_last() =~= wall + pad + p@ + pad + wall);
        }
    }
}

/// Build the group top border: `┌─ Title ───┐`.
fn push_group_top_border(out: &mut Vec<char>, title: &str, inner_w: usize)
    ensures
        final(out)@ == old(out)@ + seq!['\u{250C}', '\u{2500}', ' '] + title@ + seq![' ']
            + rep('\u{2500}', sat_sub(inner_w as nat, sat_add(unicode_str_width(title@) as nat, 3)))
            + seq!['\u{2510}'],
        narrow_text(title@) ==> unicode_str_width(title@) == title@.len(),
{
    let ghost start = out@;
    let title_w = str_width(title);
    let title_seg = title_w.saturating_add(3);
    let fill = inner_w.saturating_sub(title_seg);
    out.push('\u{250C}');
    out.push('\u{2500}');
    out.push(' ');
    let t = chars_of(title);
    push_all(out, &t);
    out.push(' ');
    push_rep(out, '\u{2500}', fill);
    out.push('\u{2510}');
    assert(final(out)@ =~= start + seq!['\u{250C}', '\u{2500}', ' '] + title@ + seq![' ']
        + rep('\u{2500}', sat_sub(inner_w as nat, sat_add(unicode_str_width(title@) as nat, 3)))
        + seq!['\u{2510}']);
}

/// Build the group bottom border: `└───┘` with `inner_w` dashes.
fn push_group_bottom_border(out: &mut Vec<char>, inner_w: usize)
    ensures
        final(out)@ == old(out)@ + seq!['\u{2514}'] + rep('\u{2500}', inner_w as nat) + seq!['\u{2518}'],
{
    let ghost start = out@;
    out.push('\u{2514}');
    push_rep(out, '\u{2500}', inner_w);
    out.push('\u{2518}');
    assert(final(out)@ =~= start + seq!['\u{2514}'] + rep('\u{2500}', inner_w as nat) + seq!['\u{2518}']);
}

/// Content width of a group's border box (see `group_inner_width`).
fn compute_group_inner_w(
    group: &ArchGroup,
    diag: &Architecture,
    services: &Vec<&ArchService>,
    title: &str,
    top_line: &Vec<char>,
    max_width: Option<usize>,
) -> (r: usize)
    requires
        deref_all(services@) == members(diag.services@, group.id@),
        title@ == shown_title(*group, max_width),
        top_line@ == service_row(deref_all(services@), service_inner_width(deref_all(services@), max_width)).0,
    ensures
        r == group_inner_width(*group, *diag, max_width),
{
    let ghost svcs = deref_all(services@);
    let ghost iw = service_inner_width(svcs, max_width);
    proof {
        lemma_row_top_len(svcs, iw);
    }
    let top_len = top_line.len();
    assert(row_width(svcs.len(), iw) == top_len);
    let svc_row_w = if services.len() == 0 {
        0
    } else {
        service_row_width(services, max_width)
    };
    let title_min_inner = str_width(title).saturating_add(3);
    let inner_w = if services.len() == 0 {
        if title_min_inner > 4 { title_min_inner } else { 4 }
    } else {
        let w = svc_row_w.saturating_add(2 * GROUP_PADDING);
        if w > title_min_inner { w } else { title_min_inner }
    };
    match max_width {
        Some(budget) => {
            let b2 = budget.saturating_sub(2);
            let capped = if inner_w < b2 { inner_w } else { b2 };
            if capped > title_min_inner { capped } else { title_min_inner }
        },
        None => inner_w,
    }
}

/// Append the lines between a group's borders.
fn push_group_body(out: &mut Vec<char>, empty: bool, lines: &(Vec<char>, Vec<char>, Vec<char>), inner_w: usize)
    ensures
        final(out)@ == old(out)@ + (if empty {
            seq!['\u{2502}'] + rep(' ', inner_w as nat) + seq!['\u{2502}', '\n']
        } else {
            framed(lines.0@, sat_sub(inner_w as nat, (2 * GROUP_PADDING) as nat))
                + framed(lines.1@, sat_sub(inner_w as nat, (2 * GROUP_PADDING) as nat))
                + framed(lines.2@, sat_sub(inner_w as nat, (2 * GROUP_PADDING) as nat))
        }),
        !empty && narrow_text(lines.0@) ==> narrow_line(
            framed(lines.0@, sat_sub(inner_w as nat, (2 * GROUP_PADDING) as nat)),
            sat_sub(inner_w as nat, (2 * GROUP_PADDING) as nat) + 6,
        ),
        !empty && narrow_text(lines.1@) ==> narrow_line(
            framed(lines.1@, sat_sub(inner_w as nat, (2 * GROUP_PADDING) as nat)),
            sat_sub(inner_w as nat, (2 * GROUP_PADDING) as nat) + 6,
        ),
        !empty && narrow_text(lines.2@) ==> narrow_line(
            framed(lines.2@, sat_sub(inner_w as nat, (2 * GROUP_PADDING) as nat)),
            sat_sub(inner_w as nat, (2 * GROUP_PADDING) as nat) + 6,
        ),
{
    let ghost start = out@;
    let avail = inner_w.saturating_sub(2 * GROUP_PADDING);
    if empty {
        out.push('\u{2502}');
        push_rep(out, ' ', inner_w);
        out.push('\u{2502}');
        out.push('\n');
        assert(final(out)@ =~= start + (seq!['\u{2502}'] + rep(' ', inner_w as nat) + seq!['\u{2502}', '\n']));
    } else {
        push_framed(out, &lines.0, avail);
        push_framed(out, &lines.1, avail);
        push_framed(out, &lines.2, avail);
        assert(final(out)@ =~= start + (framed(lines.0@, avail as nat) + framed(lines.1@, avail as nat) + framed(lines.2@, avail as nat)));
    }
}

/// The title shown in a group's top border (see `shown_title`).
fn shown_group_title(group: &ArchGroup, max_width: Option<usize>) -> (r: String)
    ensures
        r@ == shown_title(*group, max_width),
        narrow_text(title_of(*group)) ==> narrow_text(r@) && (max_width matches Some(b) ==> r@.len() <= sat_sub(
            b as nat,
            5,
        )),
{
    let title_v = group_title(group);
    let full = string_from_chars(title_v.as_slice());
    match max_width {
        Some(budget) => {
            let room = budget.saturating_sub(5);
            if str_width(full.as_str()) > room {
                let t = truncate_chars(full.as_str(), room, 1);
                string_from_chars(t.as_slice())
            } else {
                full
            }
        },
        None => full,
    }
}

/// The lines of a group box fit a budget of at least six columns when its
/// title and service rows are narrow.
#[verifier::rlimit(60)]
#[verifier::spinoff_prover]
proof fn lemma_group_lines_fit(
    g: ArchGroup,
    diag: Architecture,
    b: usize,
    start: Seq<char>,
    top: Seq<char>,
    body: Seq<char>,
    bottom: Seq<char>,
    l0: Seq<char>,
    l1: Seq<char>,
    l2: Seq<char>,
)
    requires
        b >= 6,
        lines_fit(start, b as nat),
        tail_run(start) == 0,
        narrow_text(shown_title(g, Some(b))),
        shown_title(g, Some(b)).len() <= b - 5,
        unicode_str_width(shown_title(g, Some(b))) == shown_title(g, Some(b)).len(),
        top == group_top(shown_title(g, Some(b)), group_inner_width(g, diag, Some(b))),
        bottom == group_bottom(group_inner_width(g, diag, Some(b))),
        members(diag.services@, g.id@).len() == 0 ==> body == seq!['\u{2502}'] + rep(
            ' ',
            group_inner_width(g, diag, Some(b)),
        ) + seq!['\u{2502}', '\n'],
        members(diag.services@, g.id@).len() > 0 ==> {
            let avail = sat_sub(group_inner_width(g, diag, Some(b)), (2 * GROUP_PADDING) as nat);
            &&& body == framed(l0, avail) + framed(l1, avail) + framed(l2, avail)
            &&& narrow_line(framed(l0, avail), avail + 6)
            &&& narrow_line(framed(l1, avail), avail + 6)
            &&& narrow_line(framed(l2, avail), avail + 6)
        },
    ensures
        lines_fit(start + top + body + bottom, b as nat),
        tail_run(start + top + body + bottom) == 0,
{
    let t = shown_title(g, Some(b));
    let inner = group_inner_width(g, diag, Some(b));
    let w = b as nat;
    assert(inner >= t.len() + 3 && inner + 2 <= w);
    lemma_rep_narrow('\u{2500}', inner);
    lemma_rep_narrow(' ', inner);
    // Top border.
    let fill = rep('\u{2500}', sat_sub(inner, sat_add(t.len(), 3)));
    lemma_rep_narrow('\u{2500}', sat_sub(inner, sat_add(t.len(), 3)));
    let head = seq!['\u{250C}', '\u{2500}', ' '];
    assert(narrow_text(head)) by {
        assert(narrow_char(head[0]) && narrow_char(head[1]) && narrow_char(head[2]));
    }
    let sp = seq![' '];
    assert(narrow_text(sp)) by {
        assert(narrow_char(sp[0]));
    }
    let close = seq!['\u{2510}'];
    assert(narrow_text(close)) by {
        assert(narrow_char(close[0]));
    }
    narrow_text_concat(head, t);
    narrow_text_concat(head + t, sp);
    narrow_text_concat(head + t + sp, fill);
    narrow_text_concat(head + t + sp + fill, close);
    let top_line = head + t + sp + fill + close;
    assert(top =~= top_line + seq!['\n']);
    lemma_append_line(start, top_line, w);
    let s1 = start + top;
    assert(start + top_line + seq!['\n'] =~= s1);
    // Body.
    let wall = seq!['\u{2502}'];
    assert(narrow_text(wall)) by {
        assert(narrow_char(wall[0]));
    }
    if members(diag.services@, g.id@).len() == 0 {
        narrow_text_concat(wall, rep(' ', inner));
        narrow_text_concat(wall + rep(' ', inner), wall);
        assert(body =~= wall + rep(' ', inner) + wall + seq!['\n']);
        lemma_append_line(s1, wall + rep(' ', inner) + wall, w);
        assert(s1 + (wall + rep(' ', inner) + wall) + seq!['\n'] =~= s1 + body);
    } else {
        let avail = sat_sub(inner, (2 * GROUP_PADDING) as nat);
        assert(avail + 6 <= w);
        let f0 = framed(l0, avail);
        let f1 = framed(l1, avail);
        let f2 = framed(l2, avail);
        lemma_append_narrow_line(s1, f0, avail + 6, w);
        lemma_append_narrow_line(s1 + f0, f1, avail + 6, w);
        lemma_append_narrow_line(s1 + f0 + f1, f2, avail + 6, w);
        assert(s1 + f0 + f1 + f2 =~= s1 + body);
    }
    let s2 = s1 + body;
    // Bottom border.
    let foot = seq!['\u{2514}'];
    assert(narrow_text(foot)) by {
        assert(narrow_char(foot[0]));
    }
    let end = seq!['\u{2518}'];
    assert(narrow_text(end)) by {
        assert(narrow_char(end[0]));
    }
    narrow_text_concat(foot, rep('\u{2500}', inner));
    narrow_text_concat(foot + rep('\u{2500}', inner), end);
    assert(bottom =~= foot + rep('\u{2500}', inner) + end + seq!['\n']);
    lemma_append_line(s2, foot + rep('\u{2500}', inner) + end, w);
    assert(s2 + (foot + rep('\u{2500}', inner) + end) + seq!['\n'] =~= s2 + bottom);
    assert(s2 + bottom =~= start + top + body + bottom);
}

/// Render a group as a border box with its services inside.
///
/// With a budget of at least six columns, a narrow title and narrow service
/// labels (see `narrow_char`), no line of the box is longer than the budget.
#[verifier::rlimit(100)]
#[verifier::spinoff_prover]
fn render_group(group: &ArchGroup, diag: &Architecture, max_width: Option<usize>, out: &mut Vec<char>)
    ensures
        final(out)@ == old(out)@ + group_block(*group, *diag, max_width),
        (max_width matches Some(b) && b >= 6 && narrow_text(title_of(*group)) && narrow_labels(
            members(diag.services@, group.id@),
        ) && lines_fit(old(out)@, b as nat) && tail_run(old(out)@) == 0) ==> lines_fit(
            final(out)@,
            max_width.unwrap() as nat,
        ) && tail_run(final(out)@) == 0,
{
    let ghost start = out@;
    let services = diag.services_in_group(&group.id);
    let ghost svcs = deref_all(services@);
    let title = shown_group_title(group, max_width);
    let lines = build_service_row_lines(&services, max_width);
    let inner_w = compute_group_inner_w(group, diag, &services, title.as_str(), &lines.0, max_width);
    push_group_top_border(out, title.as_str(), inner_w);
    out.push('\n');
    let ghost top = out@.skip(start.len() as int);
    let ghost after_top = out@;
    push_group_body(out, services.len() == 0, &lines, inner_w);
    let ghost body = out@.skip(after_top.len() as int);
    let ghost after_body = out@;
    push_group_bottom_border(out, inner_w);
    out.push('\n');
    let ghost bottom = out@.skip(after_body.len() as int);
    proof {
        let inner = group_inner_width(*group, *diag, max_width);
        assert(top =~= group_top(shown_title(*group, max_width), inner));
        assert(body =~= group_body(*group, *diag, max_width, inner));
        assert(bottom =~= group_bottom(inner));
        assert(out@ =~= start + top + body + bottom);
        if max_width is Some && max_width.unwrap() >= 6 && narrow_text(title_of(*group)) && narrow_labels(svcs)
            && lines_fit(start, max_width.unwrap() as nat) && tail_run(start) == 0 {
            lemma_group_lines_fit(*group, *diag, max_width.unwrap(), start, top, body, bottom, lines.0@, lines.1@, lines.2@);
        }
    }
}

/// Render a standalone row of service boxes (used for top-level services).
fn render_service_row(services: &Vec<&ArchService>, max_width: Option<usize>, out: &mut Vec<char>)
    ensures
        final(out)@ == old(out)@ + standalone_row(deref_all(services@), max_width),
        (max_width matches Some(b) && services@.len() > 0 && b >= (services@.len() - 1) * SERVICE_GAP
            + services@.len() * 4 + services@.len() && narrow_labels(deref_all(services@)) && lines_fit(
            old(out)@,
            b as nat,
        ) && tail_run(old(out)@) == 0) ==> lines_fit(final(out)@, max_width.unwrap() as nat) && tail_run(
            final(out)@,
        ) == 0,
{
    let ghost start = out@;
    let rows = build_service_row_lines(services, max_width);
    push_all(out, &rows.0);
    out.push('\n');
    push_all(out, &rows.1);
    out.push('\n');
    push_all(out, &rows.2);
    out.push('\n');
    assert(final(out)@ =~= start + standalone_row(deref_all(services@), max_width));
    proof {
        if max_width is Some && services@.len() > 0 {
            let b = max_width.unwrap();
            let sv = deref_all(services@);
            if b >= (sv.len() - 1) * SERVICE_GAP + sv.len() * 4 + sv.len() && narrow_labels(sv) && lines_fit(
                start,
                b as nat,
            ) && tail_run(start) == 0 {
                service_row_fits_budget(sv, b);
                lemma_append_line(start, rows.0@, b as nat);
                lemma_append_line(start + rows.0@ + seq!['\n'], rows.1@, b as nat);
                lemma_append_line(start + rows.0@ + seq!['\n'] + rows.1@ + seq!['\n'], rows.2@, b as nat);
                assert(start + rows.0@ + seq!['\n'] + rows.1@ + seq!['\n'] + rows.2@ + seq!['\n'] =~= out@);
            }
        }
    }
}

} // verus!

verus! {

/// Source side of a connection line: `id` or `id:P`.
pub open spec fn source_part(e: ArchEdge) -> Seq<char> {
    match e.source_port {
        Some(p) => e.source@ + seq![':', p.spec_abbreviation()],
        None => e.source@,
    }
}

/// Target side of a connection line: `id` or `P:id`.
pub open spec fn target_part(e: ArchEdge) -> Seq<char> {
    match e.target_port {
        Some(p) => seq![p.spec_abbreviation(), ':'] + e.target@,
        None => e.target@,
    }
}

/// One line of the connection summary: `  src ─── tgt` and a line feed.
pub open spec fn connection_line(e: ArchEdge) -> Seq<char> {
    seq![' ', ' '] + source_part(e) + seq![' ', '\u{2500}', '\u{2500}', '\u{2500}', ' '] + target_part(e) + seq!['\n']
}

/// The connection lines of a sequence of edges, in order.
pub open spec fn connection_lines(edges: Seq<ArchEdge>) -> Seq<char>
    decreases edges.len(),
{
    if edges.len() == 0 {
        Seq::empty()
    } else {
        connection_lines(edges.drop_last()) + connection_line(edges.last())
    }
}

/// The connection summary: empty without edges, else a `Connections:` header
/// followed by one line per edge, without trailing line feeds.
pub open spec fn connections_text(edges: Seq<ArchEdge>) -> Seq<char> {
    if edges.len() == 0 {
        Seq::empty()
    } else {
        trim_newlines("Connections:\n"@ + connection_lines(edges))
    }
}

/// Render the connection summary listed below the diagram.
fn render_connections(edges: &Vec<ArchEdge>) -> (r: Vec<char>)
    ensures
        r@ == connections_text(edges@),
{
    if edges.len() == 0 {
        return Vec::new();
    }
    let mut out = chars_of("Connections:\n");
    let ghost header = out@;
    let mut i: usize = 0;
    while i < edges.len()
        invariant
            i <= edges.len(),
            header == "Connections:\n"@,
            out@ == header + connection_lines(edges@.take(i as int)),
        decreases edges.len() - i,
    {
        assert(edges@.take(i + 1).drop_last() =~= edges@.take(i as int));
        let edge = &edges[i];
        let ghost before = out@;
        out.push(' ');
        out.push(' ');
        let src = chars_of(edge.source.as_str());
        push_all(&mut out, &src);
        match edge.source_port {
            Some(p) => {
                out.push(':');
                out.push(p.abbreviation());
            },
            None => {},
        }
        out.push(' ');
        out.push('\u{2500}');
        out.push('\u{2500}');
        out.push('\u{2500}');
        out.push(' ');
        match edge.target_port {
            Some(p) => {
                out.push(p.abbreviation());
                out.push(':');
            },
            None => {},
        }
        let tgt = chars_of(edge.target.as_str());
        push_all(&mut out, &tgt);
        out.push('\n');
        assert(out@ =~= before + connection_line(edges@[i as int]));
        i += 1;
        assert(out@ =~= header + connection_lines(edges@.take(i as int)));
    }
    assert(edges@.take(edges.len() as int) =~= edges@);
    pop_newlines(&mut out);
    out
}

/// The groups' text: each group block, with a blank line between groups.
pub open spec fn groups_text(diag: Architecture, max_width: Option<usize>, k: nat) -> Seq<char>
    decreases k,
{
    if k == 0 {
        Seq::empty()
    } else {
        groups_text(diag, max_width, (k - 1) as nat) + group_block(diag.groups@[k - 1], diag, max_width) + (if k
            < diag.groups@.len() {
            seq!['\n']
        } else {
            Seq::empty()
        })
    }
}

/// The full rendering of an architecture diagram, before and after trimming.
pub open spec fn architecture_untrimmed(diag: Architecture, max_width: Option<usize>) -> Seq<char> {
    let top = top_level(diag.services@);
    let head = if top.len() > 0 {
        standalone_row(top, max_width) + (if diag.groups@.len() > 0 { seq!['\n'] } else { Seq::empty() })
    } else {
        Seq::empty()
    };
    let body = head + groups_text(diag, max_width, diag.groups@.len());
    let conn = connections_text(diag.edges@);
    if conn.len() > 0 {
        (if body.len() > 0 { body + seq!['\n'] } else { body }) + conn
    } else {
        body
    }
}

/// Rendered text of an architecture diagram: the top-level service row, the
/// group boxes separated by blank lines, and the connection summary after a
/// blank line, with trailing line feeds removed.
pub open spec fn architecture_text(diag: Architecture, max_width: Option<usize>) -> Seq<char> {
    trim_newlines(architecture_untrimmed(diag, max_width))
}

/// True when every group title and service label is narrow text (see
/// `narrow_char`).
pub open spec fn narrow_diagram(diag: Architecture) -> bool {
    &&& narrow_labels(diag.services@)
    &&& forall|g: int| 0 <= g < diag.groups@.len() ==> narrow_text(title_of(#[trigger] diag.groups@[g]))
}

/// A budget of `b` columns leaves room for a row of `n` service boxes with at
/// least one column of content each (always true of an empty row).
pub open spec fn row_room(n: nat, b: nat) -> bool {
    n == 0 || b >= (n - 1) * SERVICE_GAP + n * 4 + n
}

/// Render an architecture diagram to Unicode box-drawing text.
///
/// `max_width` is an optional column budget: service labels and group titles
/// are truncated with `…` when they exceed the available space. For a
/// diagram without connections whose titles and labels are narrow text, a
/// budget of at least six columns that leaves room for the top-level row
/// keeps every line within the budget.
pub fn render(diag: &Architecture, max_width: Option<usize>) -> (r: String)
    ensures
        r@ == architecture_text(*diag, max_width),
        (max_width matches Some(b) && b >= 6 && diag.edges@.len() == 0 && narrow_diagram(*diag) && row_room(
            top_level(diag.services@).len(),
            b as nat,
        )) ==> lines_fit(r@, max_width.unwrap() as nat),
{
    let ghost fits = max_width is Some && max_width.unwrap() >= 6 && diag.edges@.len() == 0 && narrow_diagram(*diag)
        && row_room(top_level(diag.services@).len(), max_width.unwrap() as nat);
    let ghost b: nat = if max_width is Some { max_width.unwrap() as nat } else { 0 };
    let mut out: Vec<char> = Vec::new();
    let top_level = diag.top_level_services();
    proof {
        if fits {
            lemma_top_level_narrow(diag.services@);
        }
    }
    if top_level.len() > 0 {
        render_service_row(&top_level, max_width, &mut out);
        if diag.groups.len() > 0 {
            let ghost o0 = out@;
            out.push('\n');
            proof {
                if fits {
                    lemma_append_line(o0, Seq::empty(), b);
                    assert(o0 + Seq::<char>::empty() + seq!['\n'] =~= out@);
                }
            }
        }
    }
    let ghost head = out@;
    let mut i: usize = 0;
    while i < diag.groups.len()
        invariant
            i <= diag.groups.len(),
            out@ == head + groups_text(*diag, max_width, i as nat),
            fits ==> max_width is Some && b == max_width.unwrap() && b >= 6 && narrow_diagram(*diag),
            fits ==> lines_fit(out@, b) && tail_run(out@) == 0,
        decreases diag.groups.len() - i,
    {
        proof {
            if fits {
                lemma_members_narrow(diag.services@, diag.groups@[i as int].id@);
                assert(narrow_text(title_of(diag.groups@[i as int])));
            }
        }
        render_group(&diag.groups[i], diag, max_width, &mut out);
        if i + 1 < diag.groups.len() {
            let ghost o1 = out@;
            out.push('\n');
            proof {
                if fits {
                    lemma_append_line(o1, Seq::empty(), b);
                    assert(o1 + Seq::<char>::empty() + seq!['\n'] =~= out@);
                }
            }
        }
        i += 1;
        assert(out@ =~= head + groups_text(*diag, max_width, i as nat));
    }
    let conn_part = render_connections(&diag.edges);
    if conn_part.len() > 0 {
        if out.len() > 0 {
            out.push('\n');
        }
        push_all(&mut out, &conn_part);
    }
    assert(out@ =~= architecture_untrimmed(*diag, max_width));
    let ghost before = out@;
    pop_newlines(&mut out);
    proof {
        if fits {
            lemma_trim_newlines_fit(before, b);
        }
    }
    string_from_chars(out.as_slice())
}

/// An empty diagram renders to nothing: no box, no connection summary.
pub proof fn empty_architecture_renders_nothing(diag: Architecture, max_width: Option<usize>)
    requires
        diag.groups@.len() == 0,
        diag.services@.len() == 0,
        diag.edges@.len() == 0,
    ensures
        architecture_text(diag, max_width) == Seq::<char>::empty(),
{
    assert(top_level(diag.services@) =~= Seq::<ArchService>::empty());
    assert(architecture_untrimmed(diag, max_width) =~= Seq::<char>::empty());
}

} // verus!
