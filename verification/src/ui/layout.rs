//! Centred-popup geometry: a rectangle of a requested size, centred in an
//! area by the terminal UI's layout solver, and percentage-sized variants
//! with minimum dimensions.

use vstd::prelude::*;

verus! {

/// A rectangle of terminal cells.
#[derive(Clone, Copy, Debug, PartialEq, Eq, Structural)]
pub struct Rect {
    pub x: u16,
    pub y: u16,
    pub width: u16,
    pub height: u16,
}

/// What ratatui's layout solver gives for one `Constraint::Length(len)`
/// segment centred (`Flex::Center`) in the span of `extent` cells starting
/// at `start`: the segment's start and length.
pub uninterp spec fn flex_center_span(start: u16, extent: u16, len: u16) -> (u16, u16);

/// Centre a segment of `len` cells in the span `start .. start + extent`
/// with ratatui's `Layout` (`Flex::Center`, one `Constraint::Length`). The
/// solver's result is named `flex_center_span`.
#[verifier::external_body]
fn center_span(start: u16, extent: u16, len: u16) -> (r: (u16, u16))
    ensures
        r == flex_center_span(start, extent, len),
{
    let area = ratatui::layout::Rect::new(start, 0, extent, 1);
    let parts = ratatui::layout::Layout::horizontal([ratatui::layout::Constraint::Length(len)])
        .flex(ratatui::layout::Flex::Center)
        .split(area);
    (parts[0].x, parts[0].width)
}

/// A `width` x `height` rectangle centred in `area`: first centred
/// vertically, then horizontally within that row band.
pub open spec fn centered_rect_spec(width: u16, height: u16, area: Rect) -> Rect {
    let v = flex_center_span(area.y, area.height, height);
    let h = flex_center_span(area.x, area.width, width);
    Rect { x: h.0, y: v.0, width: h.1, height: v.1 }
}

/// A rectangle of `width` x `height` cells centred within `area`; the
/// layout solver clamps it to the area when it does not fit.
pub fn centered_rect(width: u16, height: u16, area: Rect) -> (r: Rect)
    ensures
        r == centered_rect_spec(width, height, area),
{
    let (y, h) = center_span(area.y, area.height, height);
    let (x, w) = center_span(area.x, area.width, width);
    Rect { x, y, width: w, height: h }
}

/// `pct` percent of `extent` (rounded down), but at least `floor`.
pub open spec fn pct_extent_spec(extent: u16, pct: u16, floor: u16) -> u16 {
    let v = extent * pct / 100;
    (if v >= floor { v } else { floor as int }) as u16
}

/// `pct` percent of `extent`, at least `floor`.
pub fn pct_extent(extent: u16, pct: u16, floor: u16) -> (r: u16)
    requires
        extent * pct <= u16::MAX,
    ensures
        r == pct_extent_spec(extent, pct, floor),
{
    let v: u16 = extent * pct / 100;
    if v >= floor { v } else { floor }
}

/// A rectangle of `w_pct` x `h_pct` percent of `area`, at least 10 columns
/// by 5 rows, centred in it (the mermaid and table modals).
pub fn centered_pct(w_pct: u16, h_pct: u16, area: Rect) -> (r: Rect)
    requires
        area.width * w_pct <= u16::MAX,
        area.height * h_pct <= u16::MAX,
    ensures
        r == centered_rect_spec(pct_extent_spec(area.width, w_pct, 10), pct_extent_spec(area.height, h_pct, 5), area),
{
    let w = pct_extent(area.width, w_pct, 10);
    let h = pct_extent(area.height, h_pct, 5);
    centered_rect(w, h, area)
}

/// A rectangle of `width_pct` x `height_pct` percent of `area`, at least 20
/// columns by 4 rows, centred in it (the search modal).
pub fn percent_rect(width_pct: u16, height_pct: u16, area: Rect) -> (r: Rect)
    requires
        area.width * width_pct <= u16::MAX,
        area.height * height_pct <= u16::MAX,
    ensures
        r == centered_rect_spec(
            pct_extent_spec(area.width, width_pct, 20),
            pct_extent_spec(area.height, height_pct, 4),
            area,
        ),
{
    let w = pct_extent(area.width, width_pct, 20);
    let h = pct_extent(area.height, height_pct, 4);
    centered_rect(w, h, area)
}

} // verus!
