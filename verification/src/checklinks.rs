//! Link validation for markdown documents.
//!
//! Links are extracted with `pulldown-cmark` and classified: same-file
//! anchors (`#heading`) are checked against the document's own headings,
//! relative links (`./other.md`, `./other.md#section`) against the files and
//! headings found on disk (looked up by the caller, see `TargetInfo`), and
//! external (`http(s)://`) or other-scheme (`mailto:`, `ftp://`, ...) links
//! are skipped.

use vstd::prelude::*;
use crate::text::{chars_of, decimal, decimal_chars, push_all, push_str, string_from_chars};
use pulldown_cmark::{Event, Options, Parser, Tag, TagEnd};

verus! {

/// Options controlling link validation.
#[derive(Clone, Debug)]
pub struct CheckOpts {
    /// Validate `http(s)://` links too (not implemented: such links are skipped).
    pub check_external: bool,
}

impl Default for CheckOpts {
    fn default() -> (r: Self)
        ensures
            !r.check_external,
    {
        CheckOpts { check_external: false }
    }
}

/// A single broken link.
#[derive(Clone, Debug, PartialEq, Eq)]
pub struct BrokenLink {
    /// 1-based source line of the link.
    pub line: u32,
    /// Why the link is broken (it quotes the raw target).
    pub reason: String,
    /// The link target as written in the markdown source.
    pub raw_target: String,
}

/// Validation result for one markdown file.
#[derive(Clone, Debug)]
pub struct FileReport {
    /// Path of the file, relative to the scanned root.
    pub path: String,
    /// The broken links of the file, in source order.
    pub broken: Vec<BrokenLink>,
}

/// Aggregated result of a scan.
#[derive(Debug)]
pub struct CheckReport {
    /// Files with at least one broken link, ordered by path.
    pub files: Vec<FileReport>,
    /// Number of markdown files scanned.
    pub files_scanned: usize,
    /// Total number of broken links.
    pub broken_count: usize,
    /// Wall-clock time of the scan.
    pub elapsed: std::time::Duration,
}

impl CheckReport {
    /// True when no broken link was found.
    pub fn is_clean(&self) -> (b: bool)
        ensures
            b == (self.broken_count == 0),
    {
        self.broken_count == 0
    }
}

// ── Markdown events ──────────────────────────────────────────────────────────

/// The markdown events that link validation looks at.
pub enum MdKind {
    HeadingStart,
    HeadingEnd,
    Text(String),
    Code(String),
    LinkStart(String),
    LinkEnd,
    Other,
}

/// A markdown event with the byte offset where its source span starts.
pub struct MdEvent {
    pub offset: usize,
    pub kind: MdKind,
}

/// Abstract form of `MdKind`, with text as character sequences.
pub enum MdKindView {
    HeadingStart,
    HeadingEnd,
    Text(Seq<char>),
    Code(Seq<char>),
    LinkStart(Seq<char>),
    LinkEnd,
    Other,
}

/// Abstract form of `MdEvent`.
pub struct MdEventView {
    pub offset: usize,
    pub kind: MdKindView,
}

impl View for MdEvent {
    type V = MdEventView;

    open spec fn view(&self) -> MdEventView {
        MdEventView {
            offset: self.offset,
            kind: match self.kind {
                MdKind::HeadingStart => MdKindView::HeadingStart,
                MdKind::HeadingEnd => MdKindView::HeadingEnd,
                MdKind::Text(t) => MdKindView::Text(t@),
                MdKind::Code(t) => MdKindView::Code(t@),
                MdKind::LinkStart(u) => MdKindView::LinkStart(u@),
                MdKind::LinkEnd => MdKindView::LinkEnd,
                MdKind::Other => MdKindView::Other,
            },
        }
    }
}

/// The abstract events of a sequence of events.
pub open spec fn events_view(s: Seq<MdEvent>) -> Seq<MdEventView> {
    s.map_values(|e: MdEvent| e@)
}

/// The event stream that `pulldown-cmark` produces for a document (with
/// tables, strikethrough, task lists and math enabled), reduced to the
/// events link validation reads.
pub uninterp spec fn markdown_events(content: Seq<char>) -> Seq<MdEventView>;

/// Trusted wrapper around `pulldown_cmark::Parser::new_ext(..).into_offset_iter()`.
///
/// The result is the parser's event stream for `content` (options: tables,
/// strikethrough, task lists, math), named by `markdown_events`: heading
/// starts and ends, text and inline code, link starts (with the destination
/// URL) and ends are kept, every other event becomes `Other`, and each event
/// carries the start of its byte range. Nothing more about the stream is
/// stated here.
#[verifier::external_body]
fn parse_markdown(content: &str) -> (r: Vec<MdEvent>)
    ensures
        events_view(r@) == markdown_events(content@),
{
    let opts = Options::ENABLE_TABLES | Options::ENABLE_STRIKETHROUGH | Options::ENABLE_TASKLISTS | Options::ENABLE_MATH;
    Parser::new_ext(content, opts).into_offset_iter().map(|(e, range)| MdEvent { offset: range.start, kind: match e {
        Event::Start(Tag::Heading { .. }) => MdKind::HeadingStart,
        Event::End(TagEnd::Heading(_)) => MdKind::HeadingEnd,
        Event::Text(t) => MdKind::Text(t.into_string()),
        Event::Code(t) => MdKind::Code(t.into_string()),
        Event::Start(Tag::Link { dest_url, .. }) => MdKind::LinkStart(dest_url.into_string()),
        Event::End(TagEnd::Link) => MdKind::LinkEnd,
        _ => MdKind::Other,
    } }).collect()
}

} // verus!

verus! {

// ── Heading anchors ──────────────────────────────────────────────────────────

/// Whether `char::is_alphanumeric` holds of a character.
pub uninterp spec fn unicode_alphanumeric(c: char) -> bool;

/// The characters of `char::to_lowercase` of a character.
pub uninterp spec fn unicode_lowercase(c: char) -> Seq<char>;

/// Trusted wrapper around `char::is_alphanumeric`.
///
/// The result is std's Unicode alphabetic-or-numeric test, named by
/// `unicode_alphanumeric`; std documents that ASCII letters and digits pass
/// and that the other ASCII characters do not.
#[verifier::external_body]
fn is_alphanumeric(c: char) -> (b: bool)
    ensures
        b == unicode_alphanumeric(c),
        ('a' <= c <= 'z' || 'A' <= c <= 'Z' || '0' <= c <= '9') ==> b,
        (c as u32) < 0x80 && !('a' <= c <= 'z' || 'A' <= c <= 'Z' || '0' <= c <= '9') ==> !b,
{
    c.is_alphanumeric()
}

/// Trusted wrapper around `char::to_lowercase`, collected.
///
/// The result is std's Unicode lowercase mapping of the character, named by
/// `unicode_lowercase`; std documents that an ASCII upper-case letter maps to
/// its lower-case letter and that every other ASCII character maps to itself.
#[verifier::external_body]
fn lowercase(c: char) -> (r: Vec<char>)
    ensures
        r@ == unicode_lowercase(c),
        'A' <= c <= 'Z' ==> r@ == seq![((c as u32) + 32) as char],
        (c as u32) < 0x80 && !('A' <= c <= 'Z') ==> r@ == seq![c],
{
    Vec::from_iter(c.to_lowercase())
}

/// Every character is ASCII (below U+0080).
pub open spec fn ascii_text(s: Seq<char>) -> bool {
    forall|i: int| 0 <= i < s.len() ==> ((#[trigger] s[i]) as u32) < 0x80
}

/// What an ASCII heading character contributes to its slug: lower-case
/// letters and digits as they are, upper-case letters lower-cased, space
/// and hyphen as `-`, underscore kept, anything else dropped.
pub open spec fn ascii_slug_piece(c: char) -> Seq<char> {
    if 'a' <= c <= 'z' || '0' <= c <= '9' {
        seq![c]
    } else if 'A' <= c <= 'Z' {
        seq![((c as u32) + 32) as char]
    } else if c == ' ' || c == '-' {
        seq!['-']
    } else if c == '_' {
        seq!['_']
    } else {
        Seq::empty()
    }
}

/// The slug of an ASCII heading text.
pub open spec fn ascii_slug(s: Seq<char>) -> Seq<char>
    decreases s.len(),
{
    if s.len() == 0 {
        Seq::empty()
    } else {
        ascii_slug(s.drop_last()) + ascii_slug_piece(s.last())
    }
}

/// What one heading character contributes to its anchor slug: letters and
/// digits lower-cased, spaces and hyphens as `-`, underscores kept, anything
/// else dropped.
pub open spec fn slug_piece(c: char) -> Seq<char> {
    if unicode_alphanumeric(c) {
        unicode_lowercase(c)
    } else if c == ' ' || c == '-' {
        seq!['-']
    } else if c == '_' {
        seq!['_']
    } else {
        Seq::empty()
    }
}

/// The anchor slug of a heading text (GitHub style).
pub open spec fn slug(s: Seq<char>) -> Seq<char>
    decreases s.len(),
{
    if s.len() == 0 {
        Seq::empty()
    } else {
        slug(s.drop_last()) + slug_piece(s.last())
    }
}

/// How a heading becomes its anchor: the slug of a text is the slugs of its
/// parts joined, and every letter or digit (`char::is_alphanumeric`, ASCII
/// or not) contributes its lower-case form (`char::to_lowercase`).
pub proof fn slug_keeps_letters_and_digits(a: Seq<char>, b: Seq<char>, c: char)
    ensures
        slug(a + b) == slug(a) + slug(b),
        unicode_alphanumeric(c) ==> slug(seq![c]) == unicode_lowercase(c),
    decreases b.len(),
{
    if b.len() == 0 {
        assert(a + b =~= a);
        assert(slug(a) + slug(b) =~= slug(a));
    } else {
        slug_keeps_letters_and_digits(a, b.drop_last(), c);
        assert((a + b).drop_last() =~= a + b.drop_last());
        assert((a + b).last() == b.last());
        assert(slug(a) + slug(b) =~= slug(a) + slug(b.drop_last()) + slug_piece(b.last()));
    }
    let one = seq![c];
    assert(one.drop_last() =~= Seq::<char>::empty());
    assert(one.last() == c);
    assert(slug(one.drop_last()) == Seq::<char>::empty());
    assert(slug(one) =~= slug_piece(c));
}

/// Convert heading text to its anchor slug (GitHub style): `"API v2.0"`
/// becomes `"api-v20"`.
pub fn heading_to_anchor(text: &str) -> (r: String)
    ensures
        r@ == slug(text@),
        ascii_text(text@) ==> r@ == ascii_slug(text@),
{
    let cs = chars_of(text);
    let mut out: Vec<char> = Vec::new();
    let mut i: usize = 0;
    while i < cs.len()
        invariant
            i <= cs.len(),
            out@ == slug(cs@.take(i as int)),
            ascii_text(cs@.take(i as int)) ==> out@ == ascii_slug(cs@.take(i as int)),
        decreases cs.len() - i,
    {
        assert(cs@.take(i + 1).drop_last() =~= cs@.take(i as int));
        assert(cs@.take(i + 1).last() == cs@[i as int]);
        let ghost before = out@;
        let c = cs[i];
        if is_alphanumeric(c) {
            let l = lowercase(c);
            push_all(&mut out, &l);
        } else if c == ' ' || c == '-' {
            out.push('-');
        } else if c == '_' {
            out.push('_');
        }
        proof {
            if ascii_text(cs@.take(i + 1)) {
                assert(cs@.take(i + 1)[i as int] == c);
                assert forall|k: int| 0 <= k < cs@.take(i as int).len() implies ((#[trigger] cs@.take(i as int)[k]) as u32)
                    < 0x80 by {
                    assert(cs@.take(i as int)[k] == cs@.take(i + 1)[k]);
                }
                if 'A' <= c <= 'Z' {
                    assert(out@ =~= before + seq![((c as u32) + 32) as char]);
                } else if ('a' <= c <= 'z' || '0' <= c <= '9') {
                    assert(out@ =~= before + seq![c]);
                }
                assert(out@ =~= ascii_slug(cs@.take(i + 1)));
            }
        }
        i += 1;
        assert(out@ =~= slug(cs@.take(i as int)));
    }
    assert(cs@.take(cs.len() as int) =~= cs@);
    string_from_chars(out.as_slice())
}

/// Scan state over the events: the anchors found, whether a heading is open,
/// and the heading text collected so far.
pub open spec fn anchor_scan(events: Seq<MdEventView>) -> (Seq<Seq<char>>, bool, Seq<char>)
    decreases events.len(),
{
    if events.len() == 0 {
        (Seq::empty(), false, Seq::empty())
    } else {
        let (found, in_heading, text) = anchor_scan(events.drop_last());
        match events.last().kind {
            MdKindView::HeadingStart => (found, true, Seq::empty()),
            MdKindView::HeadingEnd => if in_heading {
                (found.push(slug(text)), false, Seq::empty())
            } else {
                (found, in_heading, text)
            },
            MdKindView::Text(t) => if in_heading { (found, true, text + t) } else { (found, in_heading, text) },
            MdKindView::Code(t) => if in_heading { (found, true, text + t) } else { (found, in_heading, text) },
            _ => (found, in_heading, text),
        }
    }
}

/// The anchor slugs of all headings of a document, in order (inline code in
/// a heading counts as heading text).
pub open spec fn anchors_of(content: Seq<char>) -> Seq<Seq<char>> {
    anchor_scan(markdown_events(content)).0
}

/// The views of a sequence of strings.
pub open spec fn string_views(s: Seq<String>) -> Seq<Seq<char>> {
    s.map_values(|x: String| x@)
}

/// The anchor slugs of the headings in an event stream, in order: the text
/// and inline code between a heading's start and end, slugged.
pub fn anchors_from_events(events: &Vec<MdEvent>) -> (r: Vec<String>)
    ensures
        string_views(r@) == anchor_scan(events_view(events@)).0,
{
    let ghost ev = events_view(events@);
    let mut anchors: Vec<String> = Vec::new();
    let mut in_heading = false;
    let mut heading_text: Vec<char> = Vec::new();
    let mut i: usize = 0;
    while i < events.len()
        invariant
            i <= events.len(),
            ev == events_view(events@),
            (string_views(anchors@), in_heading, heading_text@) == anchor_scan(ev.take(i as int)),
        decreases events.len() - i,
    {
        assert(ev.take(i + 1).drop_last() =~= ev.take(i as int));
        assert(ev.take(i + 1).last() == events@[i as int]@);
        match &events[i].kind {
            MdKind::HeadingStart => {
                in_heading = true;
                heading_text = Vec::new();
            },
            MdKind::HeadingEnd => {
                if in_heading {
                    let ht = string_from_chars(heading_text.as_slice());
                    anchors.push(heading_to_anchor(ht.as_str()));
                    in_heading = false;
                    heading_text = Vec::new();
                }
            },
            MdKind::Text(t) => {
                if in_heading {
                    let tc = chars_of(t.as_str());
                    push_all(&mut heading_text, &tc);
                }
            },
            MdKind::Code(t) => {
                if in_heading {
                    let tc = chars_of(t.as_str());
                    push_all(&mut heading_text, &tc);
                }
            },
            _ => {},
        }
        i += 1;
        assert(string_views(anchors@) =~= anchor_scan(ev.take(i as int)).0);
    }
    assert(ev.take(events.len() as int) =~= ev);
    anchors
}

/// Extract the anchor slugs of all headings in a markdown string, in
/// document order (a repeated heading gives a repeated slug).
pub fn parse_anchors(content: &str) -> (r: Vec<String>)
    ensures
        string_views(r@) == anchors_of(content@),
{
    let events = parse_markdown(content);
    anchors_from_events(&events)
}

} // verus!

verus! {

// ── Line numbers ─────────────────────────────────────────────────────────────

/// Byte offsets where the lines of a UTF-8 text start: 0, then one past
/// every line feed byte.
pub open spec fn line_starts(bytes: Seq<u8>) -> Seq<usize>
    decreases bytes.len(),
{
    if bytes.len() == 0 {
        seq![0usize]
    } else if bytes.last() == 10 {
        line_starts(bytes.drop_last()).push(bytes.len() as usize)
    } else {
        line_starts(bytes.drop_last())
    }
}

/// Number of entries of `s` that are at most `x`.
pub open spec fn count_at_most(s: Seq<usize>, x: usize) -> nat
    decreases s.len(),
{
    if s.len() == 0 {
        0
    } else {
        count_at_most(s.drop_last(), x) + (if s.last() <= x { 1nat } else { 0nat })
    }
}

/// Entries in non-decreasing order.
pub open spec fn sorted(s: Seq<usize>) -> bool {
    forall|i: int, j: int| 0 <= i <= j < s.len() ==> s[i] <= s[j]
}

/// 1-based line holding a byte offset, given the line starts.
pub open spec fn line_of(starts: Seq<usize>, offset: usize) -> nat {
    (if count_at_most(starts, offset) >= 1 { (count_at_most(starts, offset) - 1) as nat } else { 0nat }) + 1
}

proof fn lemma_line_starts(bytes: Seq<u8>)
    requires
        bytes.len() <= usize::MAX,
    ensures
        sorted(line_starts(bytes)),
        line_starts(bytes).len() >= 1,
        line_starts(bytes)[0] == 0,
        line_starts(bytes).len() <= bytes.len() + 1,
        forall|i: int| 0 <= i < line_starts(bytes).len() ==> #[trigger] line_starts(bytes)[i] <= bytes.len(),
    decreases bytes.len(),
{
    if bytes.len() > 0 {
        lemma_line_starts(bytes.drop_last());
    }
}

proof fn lemma_count_split(s: Seq<usize>, x: usize, k: int)
    requires
        0 <= k <= s.len(),
        forall|i: int| 0 <= i < k ==> s[i] <= x,
        forall|i: int| k <= i < s.len() ==> s[i] > x,
    ensures
        count_at_most(s, x) == k,
    decreases s.len(),
{
    if s.len() > 0 {
        if k == s.len() {
            lemma_count_split(s.drop_last(), x, k - 1);
        } else {
            lemma_count_split(s.drop_last(), x, k);
        }
    }
}

/// Build the table of byte offsets where each line starts (always starting
/// with 0).
pub fn build_line_starts(content: &str) -> (r: Vec<usize>)
    ensures
        r@ == line_starts(vstd::utf8::encode_utf8(content@)),
{
    let bytes = content.as_bytes();
    let mut starts: Vec<usize> = vec![0usize];
    let mut i: usize = 0;
    assert(bytes@.take(0) =~= Seq::<u8>::empty());
    while i < bytes.len()
        invariant
            i <= bytes@.len(),
            starts@ == line_starts(bytes@.take(i as int)),
        decreases bytes.len() - i,
    {
        assert(bytes@.take(i + 1).drop_last() =~= bytes@.take(i as int));
        if bytes[i] == 10u8 {
            starts.push(i + 1);
        }
        i += 1;
    }
    assert(bytes@.take(bytes.len() as int) =~= bytes@);
    starts
}

/// Convert a byte offset to a 1-based line number using the line-start
/// table: the number of starts at or before the offset (at least one).
/// For an unsorted table the line is unspecified.
pub fn byte_offset_to_line(offset: usize, line_starts: &[usize]) -> (r: u32)
    requires
        line_starts@.len() < u32::MAX,
    ensures
        sorted(line_starts@) ==> r == line_of(line_starts@, offset),
{
    let mut lo: usize = 0;
    let mut hi: usize = line_starts.len();
    while lo < hi
        invariant
            lo <= hi <= line_starts@.len(),
            sorted(line_starts@) ==> forall|i: int| 0 <= i < lo ==> line_starts@[i] <= offset,
            sorted(line_starts@) ==> forall|i: int| hi <= i < line_starts@.len() ==> line_starts@[i] > offset,
        decreases hi - lo,
    {
        let mid = lo + (hi - lo) / 2;
        if line_starts[mid] <= offset {
            lo = mid + 1;
        } else {
            hi = mid;
        }
    }
    proof {
        if sorted(line_starts@) {
            lemma_count_split(line_starts@, offset, lo as int);
        }
    }
    let idx = if lo >= 1 { lo - 1 } else { 0 };
    (idx as u32) + 1
}

} // verus!

verus! {

// ── Link extraction ──────────────────────────────────────────────────────────

/// A link as written in the source, with its 1-based line.
pub struct RawLink {
    pub url: String,
    pub line: u32,
}

/// Abstract form of a sequence of raw links: (url, line) pairs.
pub open spec fn raw_views(s: Seq<RawLink>) -> Seq<(Seq<char>, nat)> {
    s.map_values(|r: RawLink| (r.url@, r.line as nat))
}

/// Scan state over the events: the links completed so far and the link
/// currently open (its URL and line).
pub open spec fn link_scan(events: Seq<MdEventView>, starts: Seq<usize>) -> (Seq<(Seq<char>, nat)>, Option<(Seq<char>, nat)>)
    decreases events.len(),
{
    if events.len() == 0 {
        (Seq::empty(), None)
    } else {
        let (links, cur) = link_scan(events.drop_last(), starts);
        match events.last().kind {
            MdKindView::LinkStart(u) => (links, Some((u, line_of(starts, events.last().offset)))),
            MdKindView::LinkEnd => match cur {
                Some(p) => (links.push(p), None),
                None => (links, None),
            },
            _ => (links, cur),
        }
    }
}

/// The links of a document with the lines where they start, in order.
pub open spec fn links_of(content: Seq<char>) -> Seq<(Seq<char>, nat)> {
    link_scan(markdown_events(content), line_starts(vstd::utf8::encode_utf8(content))).0
}

/// A document whose line-start table has fewer than `u32::MAX` entries.
pub open spec fn line_count_ok(content: Seq<char>) -> bool {
    line_starts(vstd::utf8::encode_utf8(content)).len() < u32::MAX
}

/// The links of an event stream with the lines where they start, in order:
/// a link is taken at its end, with the destination and line of the link
/// start before it; line numbers come from the line-start table.
pub fn links_from_events(events: &Vec<MdEvent>, line_starts: &Vec<usize>) -> (r: Vec<RawLink>)
    requires
        line_starts@.len() < u32::MAX,
    ensures
        sorted(line_starts@) ==> raw_views(r@) == link_scan(events_view(events@), line_starts@).0,
{
    let ghost ev = events_view(events@);
    let mut links: Vec<RawLink> = Vec::new();
    let mut current: Option<(String, u32)> = None;
    let mut i: usize = 0;
    while i < events.len()
        invariant
            i <= events.len(),
            ev == events_view(events@),
            line_starts@.len() < u32::MAX,
            sorted(line_starts@) ==> raw_views(links@) == link_scan(ev.take(i as int), line_starts@).0,
            sorted(line_starts@) ==> (match current {
                Some(p) => Some((p.0@, p.1 as nat)),
                None => None,
            }) == link_scan(ev.take(i as int), line_starts@).1,
        decreases events.len() - i,
    {
        assert(ev.take(i + 1).drop_last() =~= ev.take(i as int));
        assert(ev.take(i + 1).last() == events@[i as int]@);
        match &events[i].kind {
            MdKind::LinkStart(u) => {
                let line = byte_offset_to_line(events[i].offset, line_starts.as_slice());
                current = Some((u.clone(), line));
            },
            MdKind::LinkEnd => {
                match current {
                    Some(p) => {
                        links.push(RawLink { url: p.0, line: p.1 });
                    },
                    None => {},
                }
                current = None;
            },
            _ => {},
        }
        i += 1;
        assert(sorted(line_starts@) ==> raw_views(links@) =~= link_scan(ev.take(i as int), line_starts@).0);
    }
    assert(ev.take(events.len() as int) =~= ev);
    links
}

/// Extract all links of a markdown string with their source lines
/// (reference-style links are resolved by the parser).
pub fn extract_links(content: &str) -> (r: Vec<RawLink>)
    requires
        line_count_ok(content@),
    ensures
        raw_views(r@) == links_of(content@),
{
    let line_starts = build_line_starts(content);
    let nbytes = content.as_bytes().len();
    proof {
        lemma_line_starts(vstd::utf8::encode_utf8(content@));
    }
    let events = parse_markdown(content);
    links_from_events(&events, &line_starts)
}

} // verus!

verus! {

// ── Classification and paths ─────────────────────────────────────────────────

/// Whether `s` begins with `p`.
pub open spec fn has_prefix(s: Seq<char>, p: Seq<char>) -> bool {
    p.len() <= s.len() && s.take(p.len() as int) == p
}

/// Whether `p` occurs in `s`.
pub open spec fn has_infix(s: Seq<char>, p: Seq<char>) -> bool {
    exists|i: int| 0 <= i && i + p.len() <= s.len() && #[trigger] s.subrange(i, i + p.len()) == p
}

/// Index of the first occurrence of `c` in `s` (the length when absent).
pub open spec fn find_char(s: Seq<char>, c: char) -> nat
    decreases s.len(),
{
    if s.len() == 0 {
        0
    } else if s[0] == c {
        0
    } else {
        1 + find_char(s.drop_first(), c)
    }
}

/// `dir` joined with `part` as `Path::join` does on Unix: an absolute part
/// replaces the directory; otherwise a `/` separates them unless the
/// directory is empty or already ends with one.
pub open spec fn join_path(dir: Seq<char>, part: Seq<char>) -> Seq<char> {
    if part.len() > 0 && part[0] == '/' {
        part
    } else if dir.len() > 0 && dir.last() != '/' {
        dir + seq!['/'] + part
    } else {
        dir + part
    }
}

/// How a link target is validated.
pub enum LinkKind {
    /// `#fragment`: an anchor of the same file.
    SameFileAnchor(String),
    /// A relative (or absolute) file path without fragment.
    CrossFile(String),
    /// A file path with a `#fragment`.
    CrossFileAnchor(String, String),
    /// `http://` or `https://`.
    External,
    /// Any other scheme (`mailto:`, `ftp://`, ...).
    Ignored,
}

/// Abstract form of `LinkKind`.
pub enum LinkKindView {
    SameFileAnchor(Seq<char>),
    CrossFile(Seq<char>),
    CrossFileAnchor(Seq<char>, Seq<char>),
    External,
    Ignored,
}

impl View for LinkKind {
    type V = LinkKindView;

    open spec fn view(&self) -> LinkKindView {
        match self {
            LinkKind::SameFileAnchor(a) => LinkKindView::SameFileAnchor(a@),
            LinkKind::CrossFile(p) => LinkKindView::CrossFile(p@),
            LinkKind::CrossFileAnchor(p, a) => LinkKindView::CrossFileAnchor(p@, a@),
            LinkKind::External => LinkKindView::External,
            LinkKind::Ignored => LinkKindView::Ignored,
        }
    }
}

/// The classification of a link URL found in a file of directory `file_dir`.
pub open spec fn classify(url: Seq<char>, file_dir: Seq<char>) -> LinkKindView {
    if url.len() > 0 && url[0] == '#' {
        LinkKindView::SameFileAnchor(url.drop_first())
    } else if has_prefix(url, "http://"@) || has_prefix(url, "https://"@) {
        LinkKindView::External
    } else if has_infix(url, "://"@) || has_prefix(url, "mailto:"@) {
        LinkKindView::Ignored
    } else {
        let i = find_char(url, '#');
        if i < url.len() {
            LinkKindView::CrossFileAnchor(join_path(file_dir, url.take(i as int)), url.skip((i + 1) as int))
        } else {
            LinkKindView::CrossFile(join_path(file_dir, url))
        }
    }
}

/// Whether `s` begins with `p`.
fn starts_with_chars(s: &Vec<char>, p: &Vec<char>) -> (b: bool)
    ensures
        b == has_prefix(s@, p@),
{
    if p.len() > s.len() {
        return false;
    }
    let mut i: usize = 0;
    while i < p.len()
        invariant
            p@.len() <= s@.len(),
            i <= p@.len(),
            forall|k: int| 0 <= k < i ==> s@[k] == p@[k],
        decreases p.len() - i,
    {
        if s[i] != p[i] {
            assert(s@.take(p.len() as int)[i as int] != p@[i as int]);
            return false;
        }
        i += 1;
    }
    assert(s@.take(p.len() as int) =~= p@);
    true
}

/// Whether `p` occurs in `s`.
fn contains_chars(s: &Vec<char>, p: &Vec<char>) -> (b: bool)
    ensures
        b == has_infix(s@, p@),
{
    if p.len() > s.len() {
        return false;
    }
    let mut i: usize = 0;
    while i <= s.len() - p.len()
        invariant
            p@.len() <= s@.len(),
            i <= s@.len() - p@.len() + 1,
            forall|k: int| 0 <= k < i ==> #[trigger] s@.subrange(k, k + p@.len()) != p@,
        decreases s.len() - p.len() + 1 - i,
    {
        let mut j: usize = 0;
        let mut same = true;
        while j < p.len()
            invariant
                p@.len() <= s@.len(),
                s@.len() <= usize::MAX,
                i + p@.len() <= s@.len(),
                j <= p@.len(),
                same == forall|k: int| 0 <= k < j ==> s@[i + k] == #[trigger] p@[k],
            decreases p.len() - j,
        {
            assert(i + j < s@.len());
            if s[i + j] != p[j] {
                same = false;
            }
            j += 1;
        }
        if same {
            assert(s@.subrange(i as int, i + p@.len()) =~= p@);
            return true;
        }
        assert(s@.subrange(i as int, i + p@.len()) != p@) by {
            let k = choose|k: int| 0 <= k < j && s@[i + k] != p@[k];
            assert(s@.subrange(i as int, i + p@.len())[k] != p@[k]);
        }
        i += 1;
    }
    assert forall|k: int| 0 <= k && k + p@.len() <= s@.len() implies #[trigger] s@.subrange(k, k + p@.len()) != p@ by {}
    false
}

/// Index of the first `c` in `s` (the length when absent).
fn find_char_index(s: &Vec<char>, c: char) -> (r: usize)
    ensures
        r == find_char(s@, c),
{
    let mut i: usize = 0;
    assert(s@.skip(0) =~= s@);
    while i < s.len()
        invariant
            i <= s@.len(),
            find_char(s@, c) == i + find_char(s@.skip(i as int), c),
        decreases s.len() - i,
    {
        if s[i] == c {
            assert(s@.skip(i as int)[0] == c);
            return i;
        }
        assert(s@.skip(i as int).drop_first() =~= s@.skip(i + 1));
        i += 1;
    }
    i
}

/// `dir` joined with `part` (see `join_path`).
fn join_chars(dir: &Vec<char>, part: &Vec<char>) -> (r: Vec<char>)
    ensures
        r@ == join_path(dir@, part@),
{
    if part.len() > 0 && part[0] == '/' {
        let mut r: Vec<char> = Vec::new();
        push_all(&mut r, part);
        return r;
    }
    let mut r: Vec<char> = Vec::new();
    push_all(&mut r, dir);
    if dir.len() > 0 && dir[dir.len() - 1] != '/' {
        r.push('/');
    }
    push_all(&mut r, part);
    r
}

/// The characters of `s` from `from` to `to`.
fn slice_chars(s: &Vec<char>, from: usize, to: usize) -> (r: Vec<char>)
    requires
        from <= to <= s@.len(),
    ensures
        r@ == s@.subrange(from as int, to as int),
{
    let mut r: Vec<char> = Vec::new();
    let mut i = from;
    while i < to
        invariant
            from <= i <= to <= s@.len(),
            r@ == s@.subrange(from as int, i as int),
        decreases to - i,
    {
        r.push(s[i]);
        i += 1;
        assert(r@ =~= s@.subrange(from as int, i as int));
    }
    r
}

/// Classify a link URL found in a file of directory `file_dir`.
pub fn classify_url(url: &str, file_dir: &str) -> (r: LinkKind)
    ensures
        r@ == classify(url@, file_dir@),
{
    let u = chars_of(url);
    if u.len() > 0 && u[0] == '#' {
        let frag = slice_chars(&u, 1, u.len());
        assert(frag@ =~= u@.drop_first());
        return LinkKind::SameFileAnchor(string_from_chars(frag.as_slice()));
    }
    let http = chars_of("http://");
    let https = chars_of("https://");
    if starts_with_chars(&u, &http) || starts_with_chars(&u, &https) {
        return LinkKind::External;
    }
    let scheme = chars_of("://");
    let mailto = chars_of("mailto:");
    if contains_chars(&u, &scheme) || starts_with_chars(&u, &mailto) {
        return LinkKind::Ignored;
    }
    let dir = chars_of(file_dir);
    let i = find_char_index(&u, '#');
    if i < u.len() {
        let path_part = slice_chars(&u, 0, i);
        let frag = slice_chars(&u, i + 1, u.len());
        assert(path_part@ =~= u@.take(i as int));
        assert(frag@ =~= u@.skip((i + 1) as int));
        let target = join_chars(&dir, &path_part);
        LinkKind::CrossFileAnchor(string_from_chars(target.as_slice()), string_from_chars(frag.as_slice()))
    } else {
        let target = join_chars(&dir, &u);
        LinkKind::CrossFile(string_from_chars(target.as_slice()))
    }
}

} // verus!

verus! {

/// Path segments scanned so far and the segment being read.
pub open spec fn seg_scan(s: Seq<char>) -> (Seq<Seq<char>>, Seq<char>)
    decreases s.len(),
{
    if s.len() == 0 {
        (Seq::empty(), Seq::empty())
    } else {
        let (done, cur) = seg_scan(s.drop_last());
        if s.last() == '/' {
            (keep_segment(done, cur), Seq::empty())
        } else {
            (done, cur.push(s.last()))
        }
    }
}

/// `done` extended by `cur` unless it is empty or `.`.
pub open spec fn keep_segment(done: Seq<Seq<char>>, cur: Seq<char>) -> Seq<Seq<char>> {
    if cur.len() == 0 || cur == seq!['.'] {
        done
    } else {
        done.push(cur)
    }
}

/// The components of a path other than the root and `.`: the text between
/// `/` separators, skipping empty and `.` segments.
pub open spec fn segments(s: Seq<char>) -> Seq<Seq<char>> {
    keep_segment(seg_scan(s).0, seg_scan(s).1)
}

/// Whether a path is absolute (starts with `/`).
pub open spec fn rooted(s: Seq<char>) -> bool {
    s.len() > 0 && s[0] == '/'
}

/// Components with `..` resolved: a `..` removes the preceding component
/// when there is one and is kept otherwise.
pub open spec fn resolve_parents(c: Seq<Seq<char>>) -> Seq<Seq<char>>
    decreases c.len(),
{
    if c.len() == 0 {
        Seq::empty()
    } else {
        let o = resolve_parents(c.drop_last());
        if c.last() == seq!['.', '.'] {
            if o.len() > 0 { o.drop_last() } else { o.push(c.last()) }
        } else {
            o.push(c.last())
        }
    }
}

/// Components joined by `/`.
pub open spec fn joined(c: Seq<Seq<char>>) -> Seq<char>
    decreases c.len(),
{
    if c.len() == 0 {
        Seq::empty()
    } else if c.len() == 1 {
        c[0]
    } else {
        joined(c.drop_last()) + seq!['/'] + c.last()
    }
}

/// A path written from its root flag and components.
pub open spec fn path_text(is_rooted: bool, c: Seq<Seq<char>>) -> Seq<char> {
    (if is_rooted { seq!['/'] } else { Seq::empty() }) + joined(c)
}

/// A path with `.` components dropped and `..` components resolved
/// lexically, without consulting the file system.
pub open spec fn normalized(s: Seq<char>) -> Seq<char> {
    path_text(rooted(s), resolve_parents(segments(s)))
}

/// The directory of a file path: the path without its last component, or
/// `.` when it has none.
pub open spec fn parent_dir(s: Seq<char>) -> Seq<char> {
    let c = segments(s);
    if c.len() > 0 {
        path_text(rooted(s), c.drop_last())
    } else {
        seq!['.']
    }
}

/// The views of a sequence of character vectors.
pub open spec fn vec_views(v: Seq<Vec<char>>) -> Seq<Seq<char>> {
    v.map_values(|x: Vec<char>| x@)
}

/// The components of a path (see `segments`).
fn path_segments(s: &Vec<char>) -> (r: Vec<Vec<char>>)
    ensures
        vec_views(r@) == segments(s@),
{
    let mut done: Vec<Vec<char>> = Vec::new();
    let mut cur: Vec<char> = Vec::new();
    let mut i: usize = 0;
    while i < s.len()
        invariant
            i <= s@.len(),
            (vec_views(done@), cur@) == seg_scan(s@.take(i as int)),
        decreases s.len() - i,
    {
        assert(s@.take(i + 1).drop_last() =~= s@.take(i as int));
        if s[i] == '/' {
            if !(cur.len() == 0 || (cur.len() == 1 && cur[0] == '.')) {
                done.push(cur);
            } else {
                assert(cur@.len() == 0 || cur@ =~= seq!['.']);
            }
            cur = Vec::new();
        } else {
            cur.push(s[i]);
        }
        i += 1;
        assert(vec_views(done@) =~= seg_scan(s@.take(i as int)).0);
    }
    assert(s@.take(s.len() as int) =~= s@);
    if !(cur.len() == 0 || (cur.len() == 1 && cur[0] == '.')) {
        done.push(cur);
    } else {
        assert(cur@.len() == 0 || cur@ =~= seq!['.']);
    }
    assert(vec_views(done@) =~= segments(s@));
    done
}

/// Write a path from its root flag and components.
fn write_path(is_rooted: bool, c: &Vec<Vec<char>>, n: usize) -> (r: Vec<char>)
    requires
        n <= c@.len(),
    ensures
        r@ == path_text(is_rooted, vec_views(c@).take(n as int)),
{
    let mut out: Vec<char> = Vec::new();
    if is_rooted {
        out.push('/');
    }
    let ghost head = out@;
    let mut i: usize = 0;
    while i < n
        invariant
            i <= n <= c@.len(),
            out@ == head + joined(vec_views(c@).take(i as int)),
        decreases n - i,
    {
        assert(vec_views(c@).take(i + 1).drop_last() =~= vec_views(c@).take(i as int));
        if i > 0 {
            out.push('/');
        }
        push_all(&mut out, &c[i]);
        i += 1;
        assert(out@ =~= head + joined(vec_views(c@).take(i as int)));
    }
    out
}

/// Resolve `..` and `.` components of a path without requiring it to exist.
pub fn normalize_path(path: &str) -> (r: String)
    ensures
        r@ == normalized(path@),
{
    let s = chars_of(path);
    let segs = path_segments(&s);
    let mut out: Vec<Vec<char>> = Vec::new();
    let mut i: usize = 0;
    while i < segs.len()
        invariant
            i <= segs@.len(),
            vec_views(out@) == resolve_parents(vec_views(segs@).take(i as int)),
        decreases segs.len() - i,
    {
        assert(vec_views(segs@).take(i + 1).drop_last() =~= vec_views(segs@).take(i as int));
        let seg = &segs[i];
        let is_parent = seg.len() == 2 && seg[0] == '.' && seg[1] == '.';
        assert(is_parent == (seg@ == seq!['.', '.'])) by {
            if seg@ == seq!['.', '.'] {
                assert(seg@.len() == 2);
            }
            if is_parent {
                assert(seg@ =~= seq!['.', '.']);
            }
        }
        if is_parent && out.len() > 0 {
            out.pop();
        } else {
            let mut copy: Vec<char> = Vec::new();
            push_all(&mut copy, seg);
            out.push(copy);
        }
        i += 1;
        assert(vec_views(out@) =~= resolve_parents(vec_views(segs@).take(i as int)));
    }
    assert(vec_views(segs@).take(segs.len() as int) =~= vec_views(segs@));
    let is_rooted = s.len() > 0 && s[0] == '/';
    let n = out.len();
    let r = write_path(is_rooted, &out, n);
    assert(vec_views(out@).take(n as int) =~= vec_views(out@));
    string_from_chars(r.as_slice())
}

/// The directory of a file path (see `parent_dir`).
fn file_dir_of(path: &str) -> (r: Vec<char>)
    ensures
        r@ == parent_dir(path@),
{
    let s = chars_of(path);
    let segs = path_segments(&s);
    if segs.len() > 0 {
        let is_rooted = s.len() > 0 && s[0] == '/';
        let r = write_path(is_rooted, &segs, segs.len() - 1);
        assert(vec_views(segs@).take(segs.len() - 1) =~= vec_views(segs@).drop_last());
        r
    } else {
        let mut r: Vec<char> = Vec::new();
        r.push('.');
        assert(r@ =~= seq!['.']);
        r
    }
}

} // verus!

verus! {

// ── Validation ───────────────────────────────────────────────────────────────

/// What the file system says about one resolved link target: whether the
/// file exists and the anchor slugs of its headings.
pub struct TargetInfo {
    pub path: String,
    pub exists: bool,
    pub anchors: Vec<String>,
}

/// The first entry describing `path`, if any.
pub open spec fn lookup(infos: Seq<TargetInfo>, path: Seq<char>) -> Option<TargetInfo>
    decreases infos.len(),
{
    if infos.len() == 0 {
        None
    } else if infos[0].path@ == path {
        Some(infos[0])
    } else {
        lookup(infos.drop_first(), path)
    }
}

/// Whether the target at `path` exists (unknown targets do not).
pub open spec fn target_exists(infos: Seq<TargetInfo>, path: Seq<char>) -> bool {
    match lookup(infos, path) {
        Some(t) => t.exists,
        None => false,
    }
}

/// The anchors of the target at `path` (none for unknown targets).
pub open spec fn target_anchors(infos: Seq<TargetInfo>, path: Seq<char>) -> Seq<Seq<char>> {
    match lookup(infos, path) {
        Some(t) => string_views(t.anchors@),
        None => Seq::empty(),
    }
}

/// A broken link as (line, reason, raw target).
pub type BrokenView = (nat, Seq<char>, Seq<char>);

/// The views of a sequence of broken links.
pub open spec fn broken_views(s: Seq<BrokenLink>) -> Seq<BrokenView> {
    s.map_values(|b: BrokenLink| (b.line as nat, b.reason@, b.raw_target@))
}

/// The verdict on one link of a file `abs_path` whose own anchors are
/// `own`: a broken same-file anchor, a missing file, a broken cross-file
/// anchor, or nothing (valid, external or ignored).
pub open spec fn link_verdict(
    url: Seq<char>,
    line: nat,
    abs_path: Seq<char>,
    own: Seq<Seq<char>>,
    infos: Seq<TargetInfo>,
) -> Option<BrokenView> {
    match classify(url, parent_dir(abs_path)) {
        LinkKindView::SameFileAnchor(a) => if own.contains(a) {
            None
        } else {
            Some((line, "broken anchor "@ + url, url))
        },
        LinkKindView::CrossFile(t) => if target_exists(infos, normalized(t)) {
            None
        } else {
            Some((line, "missing file "@ + url, url))
        },
        LinkKindView::CrossFileAnchor(t, a) => if !target_exists(infos, normalized(t)) {
            Some((line, "missing file "@ + url, url))
        } else if target_anchors(infos, normalized(t)).contains(a) {
            None
        } else {
            Some((line, "broken cross-file anchor "@ + url, url))
        },
        _ => None,
    }
}

/// The broken links among the first links of a file, in order.
pub open spec fn verdicts(
    links: Seq<(Seq<char>, nat)>,
    abs_path: Seq<char>,
    own: Seq<Seq<char>>,
    infos: Seq<TargetInfo>,
) -> Seq<BrokenView>
    decreases links.len(),
{
    if links.len() == 0 {
        Seq::empty()
    } else {
        let prev = verdicts(links.drop_last(), abs_path, own, infos);
        match link_verdict(links.last().0, links.last().1, abs_path, own, infos) {
            Some(b) => prev.push(b),
            None => prev,
        }
    }
}

/// The broken links of a document at `abs_path`.
pub open spec fn broken_links_of(abs_path: Seq<char>, content: Seq<char>, infos: Seq<TargetInfo>) -> Seq<BrokenView> {
    verdicts(links_of(content), abs_path, anchors_of(content), infos)
}

/// External (`http(s)://`) and other-scheme links are skipped silently:
/// every reported link is a same-file anchor or a file link.
pub proof fn skipped_links_never_reported(
    links: Seq<(Seq<char>, nat)>,
    abs_path: Seq<char>,
    own: Seq<Seq<char>>,
    infos: Seq<TargetInfo>,
)
    ensures
        forall|k: int|
            0 <= k < verdicts(links, abs_path, own, infos).len() ==> {
                let c = classify(#[trigger] verdicts(links, abs_path, own, infos)[k].2, parent_dir(abs_path));
                !(c is External) && !(c is Ignored)
            },
    decreases links.len(),
{
    if links.len() > 0 {
        skipped_links_never_reported(links.drop_last(), abs_path, own, infos);
    }
}

/// The resolved targets of the file links among `links`, in order.
pub open spec fn file_targets(links: Seq<(Seq<char>, nat)>, abs_path: Seq<char>) -> Seq<Seq<char>>
    decreases links.len(),
{
    if links.len() == 0 {
        Seq::empty()
    } else {
        let prev = file_targets(links.drop_last(), abs_path);
        match classify(links.last().0, parent_dir(abs_path)) {
            LinkKindView::CrossFile(t) => prev.push(normalized(t)),
            LinkKindView::CrossFileAnchor(t, _) => prev.push(normalized(t)),
            _ => prev,
        }
    }
}

/// Whether a list of strings holds `s`.
fn contains_string(list: &Vec<String>, s: &String) -> (b: bool)
    ensures
        b == string_views(list@).contains(s@),
{
    let mut i: usize = 0;
    while i < list.len()
        invariant
            i <= list@.len(),
            forall|j: int| 0 <= j < i ==> list@[j]@ != s@,
        decreases list.len() - i,
    {
        if list[i].eq(s) {
            assert(string_views(list@)[i as int] == s@);
            return true;
        }
        i += 1;
    }
    assert forall|j: int| 0 <= j < string_views(list@).len() implies string_views(list@)[j] != s@ by {
        assert(string_views(list@)[j] == list@[j]@);
    }
    false
}

/// The entry describing `path`, if any.
fn find_target<'a>(infos: &'a Vec<TargetInfo>, path: &String) -> (r: Option<&'a TargetInfo>)
    ensures
        match r {
            Some(t) => lookup(infos@, path@) == Some(*t),
            None => lookup(infos@, path@) is None,
        },
{
    let mut i: usize = 0;
    assert(infos@.skip(0) =~= infos@);
    while i < infos.len()
        invariant
            i <= infos@.len(),
            lookup(infos@, path@) == lookup(infos@.skip(i as int), path@),
        decreases infos.len() - i,
    {
        assert(infos@.skip(i as int)[0] == infos@[i as int]);
        if infos[i].path.eq(path) {
            return Some(&infos[i]);
        }
        assert(infos@.skip(i as int).drop_first() =~= infos@.skip(i + 1));
        i += 1;
    }
    None
}

/// The message `prefix` followed by the raw URL.
fn reason(prefix: &str, url: &String) -> (r: String)
    ensures
        r@ == prefix@ + url@,
{
    let mut v = chars_of(prefix);
    let u = chars_of(url.as_str());
    push_all(&mut v, &u);
    string_from_chars(v.as_slice())
}

/// The resolved paths of a document's file links, in link order: the
/// targets whose existence and anchors `validate_links` needs to know.
pub fn link_targets(abs_path: &str, content: &str) -> (r: Vec<String>)
    requires
        line_count_ok(content@),
    ensures
        string_views(r@) == file_targets(links_of(content@), abs_path@),
{
    let dir_v = file_dir_of(abs_path);
    let dir = string_from_chars(dir_v.as_slice());
    let raw_links = extract_links(content);
    let ghost links = raw_views(raw_links@);
    let mut out: Vec<String> = Vec::new();
    let mut i: usize = 0;
    while i < raw_links.len()
        invariant
            i <= raw_links@.len(),
            links == raw_views(raw_links@),
            dir@ == parent_dir(abs_path@),
            string_views(out@) == file_targets(links.take(i as int), abs_path@),
        decreases raw_links.len() - i,
    {
        assert(links.take(i + 1).drop_last() =~= links.take(i as int));
        let kind = classify_url(raw_links[i].url.as_str(), dir.as_str());
        match kind {
            LinkKind::CrossFile(t) => {
                out.push(normalize_path(t.as_str()));
            },
            LinkKind::CrossFileAnchor(t, _) => {
                out.push(normalize_path(t.as_str()));
            },
            _ => {},
        }
        i += 1;
        assert(string_views(out@) =~= file_targets(links.take(i as int), abs_path@));
    }
    assert(links.take(raw_links.len() as int) =~= links);
    out
}

/// Validate all links of `content` (the markdown source of the file at
/// `abs_path`) and return the broken ones, in source order. `targets`
/// describes the resolved file targets (see `link_targets`); a target it
/// does not describe counts as missing.
pub fn validate_links(abs_path: &str, content: &str, targets: &Vec<TargetInfo>) -> (r: Vec<BrokenLink>)
    requires
        line_count_ok(content@),
    ensures
        broken_views(r@) == broken_links_of(abs_path@, content@, targets@),
{
    let dir_v = file_dir_of(abs_path);
    let dir = string_from_chars(dir_v.as_slice());
    let self_anchors = parse_anchors(content);
    let raw_links = extract_links(content);
    let ghost links = raw_views(raw_links@);
    let ghost own = string_views(self_anchors@);
    let mut broken: Vec<BrokenLink> = Vec::new();
    let mut i: usize = 0;
    while i < raw_links.len()
        invariant
            i <= raw_links@.len(),
            links == raw_views(raw_links@),
            own == string_views(self_anchors@),
            dir@ == parent_dir(abs_path@),
            broken_views(broken@) == verdicts(links.take(i as int), abs_path@, own, targets@),
        decreases raw_links.len() - i,
    {
        assert(links.take(i + 1).drop_last() =~= links.take(i as int));
        let raw = &raw_links[i];
        let ghost url = raw.url@;
        let ghost line = raw.line as nat;
        let ghost before = broken_views(broken@);
        match classify_url(raw.url.as_str(), dir.as_str()) {
            LinkKind::SameFileAnchor(anchor) => {
                if !contains_string(&self_anchors, &anchor) {
                    broken.push(BrokenLink {
                        line: raw.line,
                        reason: reason("broken anchor ", &raw.url),
                        raw_target: raw.url.clone(),
                    });
                }
            },
            LinkKind::CrossFile(target) => {
                let resolved = normalize_path(target.as_str());
                let exists = match find_target(targets, &resolved) {
                    Some(t) => t.exists,
                    None => false,
                };
                if !exists {
                    broken.push(BrokenLink {
                        line: raw.line,
                        reason: reason("missing file ", &raw.url),
                        raw_target: raw.url.clone(),
                    });
                }
            },
            LinkKind::CrossFileAnchor(target, anchor) => {
                let resolved = normalize_path(target.as_str());
                match find_target(targets, &resolved) {
                    Some(t) => {
                        if !t.exists {
                            broken.push(BrokenLink {
                                line: raw.line,
                                reason: reason("missing file ", &raw.url),
                                raw_target: raw.url.clone(),
                            });
                        } else if !contains_string(&t.anchors, &anchor) {
                            broken.push(BrokenLink {
                                line: raw.line,
                                reason: reason("broken cross-file anchor ", &raw.url),
                                raw_target: raw.url.clone(),
                            });
                        }
                    },
                    None => {
                        broken.push(BrokenLink {
                            line: raw.line,
                            reason: reason("missing file ", &raw.url),
                            raw_target: raw.url.clone(),
                        });
                    },
                }
            },
            LinkKind::External => {},
            LinkKind::Ignored => {},
        }
        i += 1;
        assert(broken_views(broken@) =~= verdicts(links.take(i as int), abs_path@, own, targets@));
    }
    assert(links.take(raw_links.len() as int) =~= links);
    broken
}

} // verus!

verus! {

// ── Report ───────────────────────────────────────────────────────────────────

/// `a` comes before `b` in character order, compared lexicographically
/// (a proper prefix comes first).
pub open spec fn chars_less(a: Seq<char>, b: Seq<char>) -> bool
    decreases a.len(),
{
    if a.len() == 0 {
        b.len() > 0
    } else if b.len() == 0 {
        false
    } else if a[0] != b[0] {
        a[0] < b[0]
    } else {
        chars_less(a.drop_first(), b.drop_first())
    }
}

/// `a` comes before `b` comparing component sequences lexicographically.
pub open spec fn segs_less(a: Seq<Seq<char>>, b: Seq<Seq<char>>) -> bool
    decreases a.len(),
{
    if a.len() == 0 {
        b.len() > 0
    } else if b.len() == 0 {
        false
    } else if a[0] != b[0] {
        chars_less(a[0], b[0])
    } else {
        segs_less(a.drop_first(), b.drop_first())
    }
}

/// Path order: paths compare component by component, each component by its
/// characters, as paths do (so `a/b` comes before `a-b`).
pub open spec fn path_less(a: Seq<char>, b: Seq<char>) -> bool {
    segs_less(segments(a), segments(b))
}

proof fn lemma_chars_less_trans(a: Seq<char>, b: Seq<char>, c: Seq<char>)
    requires
        chars_less(a, b),
        chars_less(b, c),
    ensures
        chars_less(a, c),
    decreases a.len(),
{
    if a.len() > 0 && b.len() > 0 && c.len() > 0 && a[0] == b[0] && b[0] == c[0] {
        lemma_chars_less_trans(a.drop_first(), b.drop_first(), c.drop_first());
    }
}

proof fn lemma_chars_less_irrefl(a: Seq<char>)
    ensures
        !chars_less(a, a),
    decreases a.len(),
{
    if a.len() > 0 {
        lemma_chars_less_irrefl(a.drop_first());
    }
}

proof fn lemma_segs_less_irrefl(a: Seq<Seq<char>>)
    ensures
        !segs_less(a, a),
    decreases a.len(),
{
    if a.len() > 0 {
        lemma_segs_less_irrefl(a.drop_first());
    }
}

proof fn lemma_segs_less_trans(a: Seq<Seq<char>>, b: Seq<Seq<char>>, c: Seq<Seq<char>>)
    requires
        segs_less(a, b),
        segs_less(b, c),
    ensures
        segs_less(a, c),
    decreases a.len(),
{
    if a.len() > 0 && b.len() > 0 && c.len() > 0 {
        if a[0] == b[0] && b[0] == c[0] {
            lemma_segs_less_trans(a.drop_first(), b.drop_first(), c.drop_first());
        } else if a[0] != b[0] && b[0] != c[0] {
            lemma_chars_less_trans(a[0], b[0], c[0]);
            if a[0] == c[0] {
                lemma_chars_less_irrefl(a[0]);
            }
        }
    }
}

/// Compare two character vectors in `chars_less` order.
fn chars_vec_less(a: &Vec<char>, b: &Vec<char>) -> (r: bool)
    ensures
        r == chars_less(a@, b@),
{
    let mut i: usize = 0;
    assert(a@.skip(0) =~= a@ && b@.skip(0) =~= b@);
    while i < a.len() && i < b.len() && a[i] == b[i]
        invariant
            i <= a@.len(),
            i <= b@.len(),
            chars_less(a@, b@) == chars_less(a@.skip(i as int), b@.skip(i as int)),
        decreases a.len() - i,
    {
        assert(a@.skip(i as int).drop_first() =~= a@.skip(i + 1));
        assert(b@.skip(i as int).drop_first() =~= b@.skip(i + 1));
        i += 1;
    }
    if i == a.len() {
        i < b.len()
    } else if i == b.len() {
        false
    } else {
        assert(a@.skip(i as int)[0] == a@[i as int]);
        assert(b@.skip(i as int)[0] == b@[i as int]);
        a[i] < b[i]
    }
}

fn chars_vec_eq(a: &Vec<char>, b: &Vec<char>) -> (r: bool)
    ensures
        r == (a@ == b@),
{
    if a.len() != b.len() {
        return false;
    }
    let mut i: usize = 0;
    while i < a.len()
        invariant
            i <= a@.len(),
            a@.len() == b@.len(),
            forall|k: int| 0 <= k < i ==> a@[k] == b@[k],
        decreases a.len() - i,
    {
        if a[i] != b[i] {
            return false;
        }
        i += 1;
    }
    assert(a@ =~= b@);
    true
}

/// Whether path `a` comes before path `b` in path order.
pub fn path_before(a: &str, b: &str) -> (r: bool)
    ensures
        r == path_less(a@, b@),
{
    let sa = path_segments(&chars_of(a));
    let sb = path_segments(&chars_of(b));
    let ghost va = vec_views(sa@);
    let ghost vb = vec_views(sb@);
    let mut i: usize = 0;
    assert(va.skip(0) =~= va && vb.skip(0) =~= vb);
    while i < sa.len() && i < sb.len() && chars_vec_eq(&sa[i], &sb[i])
        invariant
            i <= sa@.len(),
            i <= sb@.len(),
            va == vec_views(sa@),
            vb == vec_views(sb@),
            segs_less(va, vb) == segs_less(va.skip(i as int), vb.skip(i as int)),
        decreases sa.len() - i,
    {
        assert(va.skip(i as int).drop_first() =~= va.skip(i + 1));
        assert(vb.skip(i as int).drop_first() =~= vb.skip(i + 1));
        assert(va.skip(i as int)[0] == va[i as int]);
        assert(vb.skip(i as int)[0] == vb[i as int]);
        i += 1;
    }
    if i == sa.len() {
        i < sb.len()
    } else if i == sb.len() {
        false
    } else {
        assert(va.skip(i as int)[0] == va[i as int]);
        assert(vb.skip(i as int)[0] == vb[i as int]);
        chars_vec_less(&sa[i], &sb[i])
    }
}

/// Reports ordered by path: no report comes after one whose path it precedes.
pub open spec fn sorted_by_path(s: Seq<FileReport>) -> bool {
    forall|i: int, j: int| 0 <= i < j < s.len() ==> !path_less(#[trigger] s[j].path@, #[trigger] s[i].path@)
}

/// The reports that list at least one broken link, in order.
pub open spec fn with_broken(s: Seq<FileReport>) -> Seq<FileReport>
    decreases s.len(),
{
    if s.len() == 0 {
        Seq::empty()
    } else {
        let prev = with_broken(s.drop_last());
        if s.last().broken@.len() > 0 {
            prev.push(s.last())
        } else {
            prev
        }
    }
}

/// Total number of broken links over a list of reports.
pub open spec fn total_broken(s: Seq<FileReport>) -> nat
    decreases s.len(),
{
    if s.len() == 0 {
        0
    } else {
        total_broken(s.drop_last()) + s.last().broken@.len()
    }
}

proof fn lemma_total_broken_prefix(s: Seq<FileReport>, i: int)
    requires
        0 <= i <= s.len(),
    ensures
        total_broken(s.take(i)) <= total_broken(s),
    decreases s.len() - i,
{
    if i < s.len() {
        lemma_total_broken_prefix(s, i + 1);
        assert(s.take(i + 1).drop_last() =~= s.take(i));
    } else {
        assert(s.take(i) =~= s);
    }
}

/// A scan is clean exactly when no file has a broken link to list: the
/// broken-link count is zero if and only if no report is kept.
pub proof fn clean_iff_nothing_listed(s: Seq<FileReport>)
    ensures
        total_broken(s) == 0 <==> with_broken(s).len() == 0,
    decreases s.len(),
{
    if s.len() > 0 {
        clean_iff_nothing_listed(s.drop_last());
    }
}

/// Insert `x` after every report whose path does not come after it.
fn insert_by_path(v: &mut Vec<FileReport>, x: FileReport)
    requires
        sorted_by_path(old(v)@),
    ensures
        sorted_by_path(final(v)@),
        final(v)@.to_multiset() == old(v)@.to_multiset().insert(x),
{
    let mut p: usize = 0;
    while p < v.len() && !path_before(x.path.as_str(), v[p].path.as_str())
        invariant
            p <= v@.len(),
            forall|k: int| 0 <= k < p ==> !path_less(x.path@, #[trigger] v@[k].path@),
        decreases v.len() - p,
    {
        p += 1;
    }
    let ghost before = v@;
    proof {
        if p < v@.len() {
            assert(path_less(x.path@, before[p as int].path@));
            assert forall|j: int| p <= j < before.len() implies !path_less(#[trigger] before[j].path@, x.path@) by {
                if path_less(before[j].path@, x.path@) {
                    lemma_segs_less_trans(segments(before[j].path@), segments(x.path@), segments(before[p as int].path@));
                    if j == p {
                        lemma_segs_less_irrefl(segments(before[p as int].path@));
                    } else {
                        assert(!path_less(before[j].path@, before[p as int].path@));
                    }
                }
            }
        }
    }
    v.insert(p, x);
    proof {
        let after = v@;
        assert(after == before.insert(p as int, x));
        assert forall|i: int, j: int| 0 <= i < j < after.len() implies !path_less(
            #[trigger] after[j].path@,
            #[trigger] after[i].path@,
        ) by {
            if j < p {
                assert(after[i] == before[i] && after[j] == before[j]);
            } else if j == p {
                assert(after[i] == before[i]);
            } else if i == p {
                assert(after[j] == before[j - 1]);
            } else if i < p {
                assert(after[i] == before[i] && after[j] == before[j - 1]);
            } else {
                assert(after[i] == before[i - 1] && after[j] == before[j - 1]);
            }
        }
        before.to_multiset_ensures();
        after.to_multiset_ensures();
        vstd::seq_lib::to_multiset_insert(before, p as int, x);
    }
}

/// Paths in path order: no path comes after one it precedes.
pub open spec fn paths_sorted(s: Seq<String>) -> bool {
    forall|i: int, j: int| 0 <= i < j < s.len() ==> !path_less(#[trigger] s[j]@, #[trigger] s[i]@)
}

/// Insert `x` after every path that does not come after it.
fn insert_path(v: &mut Vec<String>, x: String)
    requires
        paths_sorted(old(v)@),
    ensures
        paths_sorted(final(v)@),
        final(v)@.to_multiset() == old(v)@.to_multiset().insert(x),
{
    let mut p: usize = 0;
    while p < v.len() && !path_before(x.as_str(), v[p].as_str())
        invariant
            p <= v@.len(),
            forall|k: int| 0 <= k < p ==> !path_less(x@, #[trigger] v@[k]@),
        decreases v.len() - p,
    {
        p += 1;
    }
    let ghost before = v@;
    proof {
        if p < v@.len() {
            assert(path_less(x@, before[p as int]@));
            assert forall|j: int| p <= j < before.len() implies !path_less(#[trigger] before[j]@, x@) by {
                if path_less(before[j]@, x@) {
                    lemma_segs_less_trans(segments(before[j]@), segments(x@), segments(before[p as int]@));
                    if j == p {
                        lemma_segs_less_irrefl(segments(before[p as int]@));
                    } else {
                        assert(!path_less(before[j]@, before[p as int]@));
                    }
                }
            }
        }
    }
    v.insert(p, x);
    proof {
        let after = v@;
        assert(after == before.insert(p as int, x));
        assert forall|i: int, j: int| 0 <= i < j < after.len() implies !path_less(
            #[trigger] after[j]@,
            #[trigger] after[i]@,
        ) by {
            if j < p {
                assert(after[i] == before[i] && after[j] == before[j]);
            } else if j == p {
                assert(after[i] == before[i]);
            } else if i == p {
                assert(after[j] == before[j - 1]);
            } else if i < p {
                assert(after[i] == before[i] && after[j] == before[j - 1]);
            } else {
                assert(after[i] == before[i - 1] && after[j] == before[j - 1]);
            }
        }
        vstd::seq_lib::to_multiset_insert(before, p as int, x);
    }
}

/// The paths sorted into path order, the order in which the scan visits files.
pub fn sort_paths(paths: Vec<String>) -> (r: Vec<String>)
    ensures
        paths_sorted(r@),
        r@.to_multiset() == paths@.to_multiset(),
{
    let ghost s = paths@;
    let mut out: Vec<String> = Vec::new();
    let mut rest = paths;
    let n = rest.len();
    let mut i: usize = 0;
    assert(s.skip(0) =~= s);
    assert(s.take(0) =~= Seq::<String>::empty());
    while i < n
        invariant
            i <= n == s.len(),
            rest@ == s.skip(i as int),
            paths_sorted(out@),
            out@.to_multiset() == s.take(i as int).to_multiset(),
        decreases n - i,
    {
        let x = rest.remove(0);
        assert(x == s[i as int]);
        assert(rest@ =~= s.skip(i + 1));
        proof {
            assert(s.take(i + 1) =~= s.take(i as int).push(s[i as int]));
            vstd::seq_lib::to_multiset_build(s.take(i as int), s[i as int]);
        }
        insert_path(&mut out, x);
        i += 1;
    }
    assert(s.take(n as int) =~= s);
    out
}

/// Assemble the scan report from one report per scanned file, in scan
/// order: files without broken links are dropped, the others are ordered by
/// path, and the broken links are counted.
pub fn build_report(scanned: Vec<FileReport>, files_scanned: usize, elapsed: std::time::Duration) -> (r: CheckReport)
    requires
        total_broken(scanned@) <= usize::MAX,
    ensures
        r.files@.to_multiset() == with_broken(scanned@).to_multiset(),
        sorted_by_path(r.files@),
        r.broken_count == total_broken(scanned@),
        r.files_scanned == files_scanned,
        r.elapsed == elapsed,
        r.broken_count == 0 <==> r.files@.len() == 0,
{
    let ghost s = scanned@;
    let mut files: Vec<FileReport> = Vec::new();
    let mut total: usize = 0;
    let mut rest = scanned;
    proof {
        lemma_total_broken_prefix(s, 0);
    }
    let mut i: usize = 0;
    let n = rest.len();
    assert(s.skip(0) =~= s);
    while i < n
        invariant
            i <= n == s.len(),
            rest@ == s.skip(i as int),
            total == total_broken(s.take(i as int)),
            total_broken(s) <= usize::MAX,
            sorted_by_path(files@),
            files@.to_multiset() == with_broken(s.take(i as int)).to_multiset(),
        decreases n - i,
    {
        proof {
            lemma_total_broken_prefix(s, i + 1);
        }
        assert(rest@.len() > 0);
        let f = rest.remove(0);
        assert(f == s[i as int]);
        assert(s.take(i + 1).drop_last() =~= s.take(i as int));
        assert(rest@ =~= s.skip(i + 1));
        let cnt = f.broken.len();
        total = total + cnt;
        let ghost prev_files = files@;
        let ghost prev_w = with_broken(s.take(i as int));
        if cnt > 0 {
            insert_by_path(&mut files, f);
            proof {
                vstd::seq_lib::to_multiset_build(prev_w, s[i as int]);
                assert(with_broken(s.take(i + 1)) == prev_w.push(s[i as int]));
            }
        } else {
            assert(with_broken(s.take(i + 1)) == prev_w);
        }
        i += 1;
    }
    assert(s.take(n as int) =~= s);
    proof {
        clean_iff_nothing_listed(s);
        files@.to_multiset_ensures();
        with_broken(s).to_multiset_ensures();
        vstd::seq_lib::to_multiset_len(files@);
        vstd::seq_lib::to_multiset_len(with_broken(s));
    }
    CheckReport { files, files_scanned, broken_count: total, elapsed }
}

// ── Report text ──────────────────────────────────────────────────────────────

/// Text of one broken link: `  line N: reason  [target]`.
pub open spec fn broken_line(b: BrokenLink) -> Seq<char> {
    "  line "@ + decimal(b.line as nat) + ": "@ + b.reason@ + "  ["@ + b.raw_target@ + "]\n"@
}

/// Text of the broken links of a file.
pub open spec fn broken_lines(s: Seq<BrokenLink>) -> Seq<char>
    decreases s.len(),
{
    if s.len() == 0 {
        Seq::empty()
    } else {
        broken_lines(s.drop_last()) + broken_line(s.last())
    }
}

/// Text of one file's section: its path, its broken links, a blank line.
pub open spec fn file_section(f: FileReport) -> Seq<char> {
    f.path@ + ":\n"@ + broken_lines(f.broken@) + "\n"@
}

/// Text of all file sections.
pub open spec fn file_sections(s: Seq<FileReport>) -> Seq<char>
    decreases s.len(),
{
    if s.len() == 0 {
        Seq::empty()
    } else {
        file_sections(s.drop_last()) + file_section(s.last())
    }
}

/// The closing summary line.
pub open spec fn summary_line(r: CheckReport, secs: Seq<char>) -> Seq<char> {
    if r.broken_count == 0 {
        "All links OK. Scanned "@ + decimal(r.files_scanned as nat) + " file(s) in "@ + secs + "s.\n"@
    } else {
        decimal(r.broken_count as nat) + " broken link(s) across "@ + decimal(r.files@.len()) + " file(s) ("@
            + decimal(r.files_scanned as nat) + " .md files scanned in "@ + secs + "s).\n"@
    }
}

/// The whole human-readable report for a scan of `root`, with the elapsed
/// seconds already written as `secs`.
pub open spec fn report_text_spec(r: CheckReport, root: Seq<char>, secs: Seq<char>) -> Seq<char> {
    "Checking links in "@ + root + " ...\n\n"@ + file_sections(r.files@) + summary_line(r, secs)
}

fn push_decimal(out: &mut Vec<char>, n: usize)
    ensures
        final(out)@ == old(out)@ + decimal(n as nat),
{
    let d = decimal_chars(n as u64);
    push_all(out, &d);
}

impl CheckReport {
    /// The human-readable summary that `print` writes: one section per file
    /// with broken links, then a closing line. `root` is the scanned
    /// directory as displayed, `secs` the elapsed seconds as displayed (two
    /// decimals).
    pub fn report_text(&self, root: &str, secs: &str) -> (r: String)
        ensures
            r@ == report_text_spec(*self, root@, secs@),
    {
        let mut out: Vec<char> = Vec::new();
        push_str(&mut out, "Checking links in ");
        push_str(&mut out, root);
        push_str(&mut out, " ...\n\n");
        let ghost head = out@;
        let mut i: usize = 0;
        while i < self.files.len()
            invariant
                i <= self.files@.len(),
                out@ == head + file_sections(self.files@.take(i as int)),
            decreases self.files.len() - i,
        {
            let f = &self.files[i];
            assert(self.files@.take(i + 1).drop_last() =~= self.files@.take(i as int));
            push_str(&mut out, f.path.as_str());
            push_str(&mut out, ":\n");
            let ghost mid = out@;
            let mut j: usize = 0;
            while j < f.broken.len()
                invariant
                    j <= f.broken@.len(),
                    out@ == mid + broken_lines(f.broken@.take(j as int)),
                decreases f.broken.len() - j,
            {
                let b = &f.broken[j];
                assert(f.broken@.take(j + 1).drop_last() =~= f.broken@.take(j as int));
                push_str(&mut out, "  line ");
                let d = decimal_chars(b.line as u64);
                push_all(&mut out, &d);
                push_str(&mut out, ": ");
                push_str(&mut out, b.reason.as_str());
                push_str(&mut out, "  [");
                push_str(&mut out, b.raw_target.as_str());
                push_str(&mut out, "]\n");
                j += 1;
                assert(out@ =~= mid + broken_lines(f.broken@.take(j as int)));
            }
            assert(f.broken@.take(f.broken@.len() as int) =~= f.broken@);
            push_str(&mut out, "\n");
            i += 1;
            assert(out@ =~= head + file_sections(self.files@.take(i as int)));
        }
        assert(self.files@.take(self.files@.len() as int) =~= self.files@);
        let ghost body = out@;
        if self.broken_count == 0 {
            push_str(&mut out, "All links OK. Scanned ");
            push_decimal(&mut out, self.files_scanned);
            push_str(&mut out, " file(s) in ");
            push_str(&mut out, secs);
            push_str(&mut out, "s.\n");
        } else {
            push_decimal(&mut out, self.broken_count);
            push_str(&mut out, " broken link(s) across ");
            push_decimal(&mut out, self.files.len());
            push_str(&mut out, " file(s) (");
            push_decimal(&mut out, self.files_scanned);
            push_str(&mut out, " .md files scanned in ");
            push_str(&mut out, secs);
            push_str(&mut out, "s).\n");
        }
        assert(out@ =~= report_text_spec(*self, root@, secs@));
        string_from_chars(out.as_slice())
    }
}

} // verus!
