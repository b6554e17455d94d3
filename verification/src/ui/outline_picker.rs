//! The outline picker: a popup listing the document's headings, navigated
//! with `j`/`k`, jumping to the selected heading with Enter.

use vstd::prelude::*;
use crate::text::{chars_of, push_rep, rep, sat_sub, string_from_chars};

verus! {

/// One heading of the rendered document, as recorded by the renderer.
pub struct HeadingAnchor {
    /// Anchor slug of the heading.
    pub anchor: String,
    /// ATX heading level (1 to 6).
    pub level: u8,
    /// Absolute 0-indexed display line of the heading.
    pub line: u32,
}

/// One entry of the outline picker.
#[derive(Clone, Debug)]
pub struct OutlineEntry {
    /// Label: the anchor slug with `-` shown as spaces.
    pub label: String,
    /// Heading level; controls the indentation.
    pub level: u8,
    /// Absolute 0-indexed display line to jump to.
    pub line: u32,
}

/// State of the outline-picker overlay.
#[derive(Debug)]
pub struct OutlinePickerState {
    /// Heading entries in document order.
    pub entries: Vec<OutlineEntry>,
    /// Index of the highlighted row.
    pub cursor: usize,
}

impl Default for OutlinePickerState {
    fn default() -> (r: Self)
        ensures
            r.entries@.len() == 0,
            r.cursor == 0,
    {
        OutlinePickerState { entries: Vec::new(), cursor: 0 }
    }
}

/// `s` with every `-` replaced by a space.
pub open spec fn dashes_to_spaces(s: Seq<char>) -> Seq<char> {
    Seq::new(s.len(), |i: int| if s[i] == '-' { ' ' } else { s[i] })
}

/// Indented display prefix of a heading level: `2 * (level - 1)` spaces,
/// `level` hashes and a space.
pub open spec fn prefix_for(level: u8) -> Seq<char> {
    rep(' ', (2 * (if level >= 1 { level - 1 } else { 0 })) as nat) + rep('#', level as nat) + seq![' ']
}

impl OutlineEntry {
    /// The indented display prefix: H1 → `# `, H2 → `  ## `, H3 → `    ### `.
    pub fn display_prefix(&self) -> (r: String)
        ensures
            r@ == prefix_for(self.level),
    {
        let mut v: Vec<char> = Vec::new();
        let lvl = self.level as usize;
        let indent = if lvl >= 1 { (lvl - 1) * 2 } else { 0 };
        push_rep(&mut v, ' ', indent);
        push_rep(&mut v, '#', lvl);
        v.push(' ');
        assert(v@ =~= prefix_for(self.level));
        string_from_chars(v.as_slice())
    }
}

/// The entry shown for a heading.
pub open spec fn entry_matches(e: OutlineEntry, h: HeadingAnchor) -> bool {
    &&& e.label@ == dashes_to_spaces(h.anchor@)
    &&& e.level == h.level
    &&& e.line == h.line
}

/// `s` with every `-` replaced by a space.
fn replace_dashes(s: &str) -> (r: String)
    ensures
        r@ == dashes_to_spaces(s@),
{
    let cs = chars_of(s);
    let mut v: Vec<char> = Vec::new();
    let mut i: usize = 0;
    while i < cs.len()
        invariant
            i <= cs@.len(),
            v@ == dashes_to_spaces(cs@).take(i as int),
        decreases cs.len() - i,
    {
        v.push(if cs[i] == '-' { ' ' } else { cs[i] });
        i += 1;
        assert(v@ =~= dashes_to_spaces(cs@).take(i as int));
    }
    assert(dashes_to_spaces(cs@).take(cs@.len() as int) =~= dashes_to_spaces(cs@));
    string_from_chars(v.as_slice())
}

impl OutlinePickerState {
    /// Collect the headings of the active tab as picker entries, in document
    /// order, with the cursor on the first; `None` when there is no active tab.
    pub fn build(active_tab_headings: Option<&Vec<HeadingAnchor>>) -> (r: Option<Self>)
        ensures
            match active_tab_headings {
                None => r is None,
                Some(hs) => r matches Some(st) && st.cursor == 0 && st.entries@.len() == hs@.len() && forall|i: int|
                    0 <= i < hs@.len() ==> entry_matches(#[trigger] st.entries@[i], hs@[i]),
            },
    {
        let hs = match active_tab_headings {
            None => {
                return None;
            },
            Some(hs) => hs,
        };
        let mut entries: Vec<OutlineEntry> = Vec::new();
        let mut i: usize = 0;
        while i < hs.len()
            invariant
                i <= hs@.len(),
                entries@.len() == i,
                forall|k: int| 0 <= k < i ==> entry_matches(#[trigger] entries@[k], hs@[k]),
            decreases hs.len() - i,
        {
            let h = &hs[i];
            entries.push(OutlineEntry { label: replace_dashes(h.anchor.as_str()), level: h.level, line: h.line });
            i += 1;
        }
        Some(OutlinePickerState { entries, cursor: 0 })
    }

    /// Move the cursor up by one, stopping at the first entry (no wrap).
    pub fn move_up(&mut self)
        ensures
            final(self).cursor == cursor_after_up(old(self).cursor),
            final(self).entries == old(self).entries,
    {
        self.cursor = self.cursor.saturating_sub(1);
    }

    /// Move the cursor down by one, stopping at the last entry (no wrap).
    pub fn move_down(&mut self)
        ensures
            final(self).cursor == cursor_after_down(old(self).cursor, old(self).entries@.len()),
            final(self).entries == old(self).entries,
    {
        if self.entries.len() > 0 {
            let last = self.entries.len() - 1;
            self.cursor = if self.cursor < last { self.cursor + 1 } else { last };
        }
    }
}

} // verus!

verus! {

/// A key press, as far as the outline picker tells keys apart.
#[derive(Clone, Copy, Debug, PartialEq, Eq, Structural)]
pub enum PickerKey {
    /// A printable character.
    Char(char),
    /// Arrow up.
    Up,
    /// Arrow down.
    Down,
    /// Enter / Return.
    Enter,
    /// Escape.
    Esc,
    /// Any other key.
    Other,
}

/// What a key does to the outline picker.
#[derive(Clone, Copy, Debug, PartialEq, Eq, Structural)]
pub enum PickerAction {
    /// Move the cursor down (`j`, arrow down).
    MoveDown,
    /// Move the cursor up (`k`, arrow up).
    MoveUp,
    /// Close the picker and jump to the selected heading (Enter).
    Jump,
    /// Close the picker (`Esc`, `q`, and `o`, the key that opened it).
    Dismiss,
    /// Ignore the key; the picker stays open.
    Ignore,
}

/// The action bound to a key.
pub open spec fn action_of(key: PickerKey) -> PickerAction {
    match key {
        PickerKey::Char(c) => if c == 'j' {
            PickerAction::MoveDown
        } else if c == 'k' {
            PickerAction::MoveUp
        } else if c == 'q' || c == 'o' {
            PickerAction::Dismiss
        } else {
            PickerAction::Ignore
        },
        PickerKey::Down => PickerAction::MoveDown,
        PickerKey::Up => PickerAction::MoveUp,
        PickerKey::Enter => PickerAction::Jump,
        PickerKey::Esc => PickerAction::Dismiss,
        PickerKey::Other => PickerAction::Ignore,
    }
}

/// Cursor after one step down in a list of `len` entries (no wrap).
pub open spec fn cursor_after_down(cursor: usize, len: nat) -> usize {
    if len == 0 {
        cursor
    } else if cursor + 1 < len {
        (cursor + 1) as usize
    } else {
        (len - 1) as usize
    }
}

/// Cursor after one step up (no wrap).
pub open spec fn cursor_after_up(cursor: usize) -> usize {
    if cursor > 0 { (cursor - 1) as usize } else { 0 }
}

/// Line of the selected entry, if the cursor is on one.
pub open spec fn selected_line(p: OutlinePickerState) -> Option<u32> {
    if p.cursor < p.entries@.len() {
        Some(p.entries@[p.cursor as int].line)
    } else {
        None
    }
}

/// Moving the cursor keeps it on an entry: from any entry, one step up or
/// down lands on an entry again.
pub proof fn cursor_stays_on_an_entry(cursor: usize, len: nat)
    requires
        cursor < len,
    ensures
        cursor_after_down(cursor, len) < len,
        cursor_after_up(cursor) < len,
{
}

/// The cursor does not wrap: down on the last entry and up on the first
/// stay put, and otherwise each step moves by exactly one.
pub proof fn cursor_clamps_without_wrapping(cursor: usize, len: nat)
    requires
        cursor < len <= usize::MAX,
    ensures
        cursor_after_down(cursor, len) == (if cursor + 1 == len { cursor as int } else { cursor + 1 }),
        cursor_after_up(cursor) == (if cursor == 0 { 0 } else { cursor - 1 }),
{
}

/// The picker's key bindings: `Esc`, `q` and `o` dismiss it, Enter jumps,
/// `j` and arrow down move down, `k` and arrow up move up, and every other
/// key is ignored.
pub proof fn picker_key_bindings(key: PickerKey)
    ensures
        action_of(key) == PickerAction::Dismiss <==> (key == PickerKey::Esc || key == PickerKey::Char('q') || key
            == PickerKey::Char('o')),
        action_of(key) == PickerAction::Jump <==> key == PickerKey::Enter,
        action_of(key) == PickerAction::MoveDown <==> (key == PickerKey::Down || key == PickerKey::Char('j')),
        action_of(key) == PickerAction::MoveUp <==> (key == PickerKey::Up || key == PickerKey::Char('k')),
{
}

/// Handle a key while the outline picker has the focus.
///
/// Returns whether the picker stays open, and the display line to jump to
/// (Enter on an entry). Enter and the dismiss keys close the picker.
pub fn handle_key(picker: &mut Option<OutlinePickerState>, key: PickerKey) -> (r: (bool, Option<u32>))
    ensures
        match action_of(key) {
            PickerAction::MoveDown => {
                &&& r == (true, None::<u32>)
                &&& match *old(picker) {
                    None => *final(picker) is None,
                    Some(p) => *final(picker) matches Some(q) && q.entries == p.entries && q.cursor
                        == cursor_after_down(p.cursor, p.entries@.len()),
                }
            },
            PickerAction::MoveUp => {
                &&& r == (true, None::<u32>)
                &&& match *old(picker) {
                    None => *final(picker) is None,
                    Some(p) => *final(picker) matches Some(q) && q.entries == p.entries && q.cursor
                        == cursor_after_up(p.cursor),
                }
            },
            PickerAction::Jump => {
                &&& *final(picker) is None
                &&& !r.0
                &&& r.1 == match *old(picker) {
                    None => None,
                    Some(p) => selected_line(p),
                }
            },
            PickerAction::Dismiss => *final(picker) is None && r == (false, None::<u32>),
            PickerAction::Ignore => *final(picker) == *old(picker) && r == (true, None::<u32>),
        },
        key == PickerKey::Esc || key == PickerKey::Char('q') || key == PickerKey::Char('o') ==> *final(picker) is None
            && r == (false, None::<u32>),
        key == PickerKey::Enter ==> *final(picker) is None && !r.0,
{
    let is_char = |c: char| -> (b: bool)
        ensures
            b == (key == PickerKey::Char(c)),
        { match key { PickerKey::Char(k) => k == c, _ => false } };
    if key == PickerKey::Down || is_char('j') {
        if let Some(p) = picker {
            p.move_down();
        }
        (true, None)
    } else if key == PickerKey::Up || is_char('k') {
        if let Some(p) = picker {
            p.move_up();
        }
        (true, None)
    } else if key == PickerKey::Enter {
        let target = match picker {
            Some(p) => if p.cursor < p.entries.len() {
                Some(p.entries[p.cursor].line)
            } else {
                None
            },
            None => None,
        };
        *picker = None;
        (false, target)
    } else if key == PickerKey::Esc || is_char('q') || is_char('o') {
        *picker = None;
        (false, None)
    } else {
        (true, None)
    }
}

} // verus!

verus! {

/// Widest popup, in columns.
pub const POPUP_MAX_WIDTH: u16 = 72;

/// Popup size `(width, height)` on a frame of `area_width` x `area_height`
/// cells: one row per entry (at least one, for the empty message) but no more
/// than the frame height minus 4, plus 2 for the border; at most 72 columns
/// and 2 less than the frame width.
pub open spec fn popup_size_spec(n_entries: nat, area_width: u16, area_height: u16) -> (u16, u16) {
    let rows = if n_entries >= 1 { n_entries } else { 1 };
    let cap = sat_sub(area_height as nat, 4);
    let h = (if rows <= cap { rows } else { cap }) + 2;
    let w = sat_sub(area_width as nat, 2);
    (
        (if w <= POPUP_MAX_WIDTH { w } else { POPUP_MAX_WIDTH as nat }) as u16,
        (if h <= u16::MAX { h } else { u16::MAX as nat }) as u16,
    )
}

/// Size of the outline popup for `n_entries` entries.
pub fn popup_size(n_entries: usize, area_width: u16, area_height: u16) -> (r: (u16, u16))
    ensures
        r == popup_size_spec(n_entries as nat, area_width, area_height),
{
    let rows: usize = if n_entries >= 1 { n_entries } else { 1 };
    let cap: usize = (area_height as usize).saturating_sub(4);
    let h: usize = (if rows <= cap { rows } else { cap }) + 2;
    let w: u16 = area_width.saturating_sub(2);
    let width: u16 = if w <= POPUP_MAX_WIDTH { w } else { POPUP_MAX_WIDTH };
    let height: u16 = if h <= 65535 { h as u16 } else { 65535 };
    (width, height)
}

/// First entry shown when `visible_rows` rows fit: the list scrolls just far
/// enough to keep the cursor on the last visible row.
pub open spec fn scroll_offset_spec(cursor: usize, visible_rows: usize) -> usize {
    if cursor < visible_rows {
        0
    } else {
        (cursor - visible_rows + 1) as usize
    }
}

/// First entry shown in a list area of `visible_rows` rows.
pub fn scroll_offset(cursor: usize, visible_rows: usize) -> (r: usize)
    requires
        visible_rows > 0 || cursor < usize::MAX,
    ensures
        r == scroll_offset_spec(cursor, visible_rows),
        visible_rows > 0 ==> r <= cursor < r + visible_rows,
{
    if cursor < visible_rows {
        0
    } else {
        cursor - visible_rows + 1
    }
}

/// One visible row of the popup: bullet, indented prefix and label.
#[derive(Clone, Debug)]
pub struct OutlineRow {
    /// ` > ` on the cursor row, three spaces elsewhere.
    pub bullet: String,
    /// The entry's display prefix.
    pub prefix: String,
    /// The entry's label.
    pub label: String,
    /// Whether this row is the highlighted one.
    pub is_cursor: bool,
}

/// Bullet of a row.
pub open spec fn bullet_for(is_cursor: bool) -> Seq<char> {
    if is_cursor {
        seq![' ', '>', ' ']
    } else {
        seq![' ', ' ', ' ']
    }
}

/// Number of rows shown: the entries from `offset` on, at most `visible`.
pub open spec fn shown_count(len: nat, offset: nat, visible: nat) -> nat {
    let rest = sat_sub(len, offset);
    if rest <= visible { rest } else { visible }
}

/// Row `k` of the popup shows entry `offset + k`.
pub open spec fn row_matches(row: OutlineRow, e: OutlineEntry, is_cursor: bool) -> bool {
    &&& row.is_cursor == is_cursor
    &&& row.bullet@ == bullet_for(is_cursor)
    &&& row.prefix@ == prefix_for(e.level)
    &&& row.label@ == e.label@
}

fn text_of(s: &str) -> (r: String)
    ensures
        r@ == s@,
{
    let cs = chars_of(s);
    string_from_chars(cs.as_slice())
}

impl OutlinePickerState {
    /// The rows shown in a list area of `visible_rows` rows, scrolled so that
    /// the cursor row is visible.
    pub fn visible_rows(&self, visible_rows: usize) -> (r: Vec<OutlineRow>)
        requires
            visible_rows > 0 || self.cursor < usize::MAX,
        ensures
            ({
                let off = scroll_offset_spec(self.cursor, visible_rows);
                &&& r@.len() == shown_count(self.entries@.len(), off as nat, visible_rows as nat)
                &&& forall|k: int|
                    0 <= k < r@.len() ==> row_matches(
                        #[trigger] r@[k],
                        self.entries@[off + k],
                        off + k == self.cursor,
                    )
            }),
    {
        let off = scroll_offset(self.cursor, visible_rows);
        let mut rows: Vec<OutlineRow> = Vec::new();
        let mut i: usize = off;
        while i < self.entries.len() && i - off < visible_rows
            invariant
                off == scroll_offset_spec(self.cursor, visible_rows),
                off <= i,
                i - off <= visible_rows,
                i <= self.entries@.len() || i == off,
                rows@.len() == i - off,
                forall|k: int|
                    0 <= k < rows@.len() ==> row_matches(
                        #[trigger] rows@[k],
                        self.entries@[off + k],
                        off + k == self.cursor,
                    ),
            decreases self.entries@.len() - i,
        {
            let e = &self.entries[i];
            let is_cursor = i == self.cursor;
            let bullet = if is_cursor { text_of(" > ") } else { text_of("   ") };
            proof {
                reveal_strlit(" > ");
                reveal_strlit("   ");
            }
            let label = text_of(e.label.as_str());
            let row = OutlineRow { bullet, prefix: e.display_prefix(), label, is_cursor };
            assert(row.bullet@ == bullet_for(is_cursor));
            assert(row.prefix@ == prefix_for(e.level));
            assert(row.label@ == e.label@);
            assert(row_matches(row, self.entries@[i as int], i == self.cursor));
            let ghost before = rows@;
            rows.push(row);
            assert(forall|k: int| 0 <= k < before.len() ==> rows@[k] == before[k]);
            i += 1;
        }
        rows
    }
}

} // verus!
