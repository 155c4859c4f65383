use vstd::prelude::*;
use crate::frame::{Direction, Rect};

verus! {

/// The largest extent, along the split direction, that a rectangle may have
/// to be split in halves: the layout solver scales the extent by the
/// percentage in 16 bits.
pub const MAX_SPLIT_EXTENT: u16 = 1310;

/// The share of a split rectangle that each half takes, in percent.
pub const HALF_PERCENT: u16 = 50;

/// The two rectangles that the layout solver gives for `area` split along
/// `direction` into shares of `p0` and `p1` percent.
pub uninterp spec fn split_areas(area: Rect, direction: Direction, p0: u16, p1: u16) -> Seq<Rect>;

/// The extent of `area` along `direction`.
pub open spec fn extent_along(area: Rect, direction: Direction) -> u16 {
    match direction {
        Direction::Horizontal => area.width,
        Direction::Vertical => area.height,
    }
}

/// Neither the right nor the bottom edge of `area` lies past the last cell
/// that 16 bits can address.
pub open spec fn unsaturated(area: Rect) -> bool {
    &&& area.x + area.width <= u16::MAX
    &&& area.y + area.height <= u16::MAX
}

/// `parts` are two rectangles that tile `area` along `direction`: both keep
/// its position and extent across the direction, the first starts where
/// `area` starts, and the second starts where the first ends and ends where
/// `area` ends.
pub open spec fn tiles(area: Rect, direction: Direction, parts: Seq<Rect>) -> bool {
    &&& parts.len() == 2
    &&& match direction {
        Direction::Horizontal => {
            &&& parts[0].y == area.y && parts[1].y == area.y
            &&& parts[0].height == area.height && parts[1].height == area.height
            &&& parts[0].x == area.x
            &&& parts[1].x == parts[0].x + parts[0].width
            &&& parts[1].x + parts[1].width == area.x + area.width
        },
        Direction::Vertical => {
            &&& parts[0].x == area.x && parts[1].x == area.x
            &&& parts[0].width == area.width && parts[1].width == area.width
            &&& parts[0].y == area.y
            &&& parts[1].y == parts[0].y + parts[0].height
            &&& parts[1].y + parts[1].height == area.y + area.height
        },
    }
}

/// Relies on tui's `Layout::split` with `Constraint::Percentage(p0)` and
/// `Constraint::Percentage(p1)`: it returns one rectangle per constraint, and
/// its required constraints make them tile the area when no edge saturates
/// (the last is stretched to the area's end). It multiplies each percentage
/// by the extent in `u16`, hence the bounds; with shares that add up to the
/// whole, its weak targets can all be met, so the result is determined by the
/// arguments.
#[verifier::external_body]
pub(crate) fn split_layout(area: Rect, direction: Direction, p0: u16, p1: u16) -> (r: Vec<Rect>)
    requires
        p0 + p1 == 100,
        p0 * extent_along(area, direction) <= u16::MAX,
        p1 * extent_along(area, direction) <= u16::MAX,
        unsaturated(area),
    ensures
        r@ == split_areas(area, direction, p0, p1),
        tiles(area, direction, r@),
{
    let d = match direction {
        Direction::Horizontal => tui::layout::Direction::Horizontal,
        Direction::Vertical => tui::layout::Direction::Vertical,
    };
    let a = tui::layout::Rect { x: area.x, y: area.y, width: area.width, height: area.height };
    let c = [tui::layout::Constraint::Percentage(p0), tui::layout::Constraint::Percentage(p1)];
    let chunks = tui::layout::Layout::default().direction(d).constraints(c.as_ref()).split(a);
    chunks.iter().map(|c| Rect { x: c.x, y: c.y, width: c.width, height: c.height }).collect()
}

} // verus!
