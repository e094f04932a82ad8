//! Rectangles of the terminal, and how the screen is divided into them.

use ratatui::layout::{Constraint, Direction, Layout};
use ratatui::widgets::{Block, Borders};
use vstd::prelude::*;

verus! {

/// A rectangle of terminal cells.
#[derive(Clone, Copy, PartialEq, Eq, Structural)]
pub struct Rect {
    pub x: u16,
    pub y: u16,
    pub width: u16,
    pub height: u16,
}

/// The direction in which a rectangle is divided.
#[derive(Clone, Copy, PartialEq, Eq, Structural)]
pub enum Axis {
    /// Into rows, top to bottom.
    Down,
    /// Into columns, left to right.
    Across,
}

/// How much of a rectangle a part of it wants.
#[derive(Clone, Copy, PartialEq, Eq, Structural)]
pub enum Extent {
    Length(u16),
    Min(u16),
    Ratio(u32, u32),
}

/// The part spans the whole rectangle in the other direction.
pub open spec fn spans(part: Rect, axis: Axis, whole: Rect) -> bool {
    match axis {
        Axis::Down => part.x == whole.x && part.width == whole.width,
        Axis::Across => part.y == whole.y && part.height == whole.height,
    }
}

/// The part does not stick out of the rectangle.
pub open spec fn lies_within(part: Rect, whole: Rect) -> bool {
    &&& whole.x <= part.x
    &&& part.x + part.width <= whole.x + whole.width
    &&& whole.y <= part.y
    &&& part.y + part.height <= whole.y + whole.height
}

/// As many parts as there are extents, each within the whole and spanning it.
pub open spec fn is_division(parts: Seq<Rect>, axis: Axis, count: nat, whole: Rect) -> bool {
    &&& parts.len() == count
    &&& forall|i: int| 0 <= i < count ==> spans(#[trigger] parts[i], axis, whole)
    &&& forall|i: int| 0 <= i < count ==> lies_within(#[trigger] parts[i], whole)
}

/// Rectangles that `ratatui::layout::Layout::split` can return for a layout of the
/// given direction and constraints, without margin or spacing.
pub uninterp spec fn can_split_into(
    axis: Axis,
    extents: Seq<Extent>,
    whole: Rect,
    parts: Seq<Rect>,
) -> bool;

/// `ratatui::layout::Layout::split`, without margin or spacing: one part for each
/// extent, in order, each within the whole and spanning it in the other direction.
/// Where in the whole a part begins and ends along the axis is left unsaid: a
/// solver that walks randomly seeded hash maps picks it, and the same extents need
/// not give the same parts twice. That the parts are such an outcome, for these
/// extents, is all that is named.
#[verifier::external_body]
pub(crate) fn divide(axis: Axis, extents: &Vec<Extent>, whole: Rect) -> (parts: Vec<Rect>)
    ensures
        is_division(parts@, axis, extents@.len(), whole),
        can_split_into(axis, extents@, whole, parts@),
{
    let axis = match axis { Axis::Down => Direction::Vertical, Axis::Across => Direction::Horizontal };
    let extents = extents.iter().map(|e| match *e {
        Extent::Length(n) => Constraint::Length(n),
        Extent::Min(n) => Constraint::Min(n),
        Extent::Ratio(a, b) => Constraint::Ratio(a, b),
    });
    let Rect { x, y, width, height } = whole;
    let whole = ratatui::layout::Rect { x, y, width, height };
    let parts = Layout::default().direction(axis).constraints(extents).split(whole);
    parts.iter().map(|p| Rect { x: p.x, y: p.y, width: p.width, height: p.height }).collect()
}

/// The smaller of two numbers.
pub open spec fn least(a: int, b: int) -> int {
    if a <= b {
        a
    } else {
        b
    }
}

/// What `amount` leaves of `n`, if anything.
pub open spec fn less(n: int, amount: int) -> int {
    if n >= amount {
        n - amount
    } else {
        0
    }
}

/// The coordinate one past `start`, but no further than the end of the rectangle.
pub open spec fn past_border(start: u16, size: u16) -> u16 {
    least(least(start + 1, start + size), u16::MAX as int) as u16
}

/// The rectangle inside a border on all four sides.
pub open spec fn inside(area: Rect) -> Rect {
    Rect {
        x: past_border(area.x, area.width),
        y: past_border(area.y, area.height),
        width: less(area.width as int, 2) as u16,
        height: less(area.height as int, 2) as u16,
    }
}

/// `ratatui::widgets::Block::inner` for a block with borders on all sides and no
/// padding: the rectangle one cell in from each side, and empty where there is no
/// room.
#[verifier::external_body]
pub(crate) fn inside_border(area: Rect) -> (inner: Rect)
    ensures
        inner == inside(area),
{
    let Rect { x, y, width, height } = area;
    let area = ratatui::layout::Rect { x, y, width, height };
    let p = Block::default().borders(Borders::ALL).inner(area);
    Rect { x: p.x, y: p.y, width: p.width, height: p.height }
}

/// A rectangle of the given size in the middle of another, cut down to fit.
pub open spec fn middle_of(w: u16, h: u16, area: Rect) -> Rect {
    Rect {
        x: (area.x + less(area.width as int, w as int) / 2) as u16,
        y: (area.y + less(area.height as int, h as int) / 2) as u16,
        width: least(w as int, area.width as int) as u16,
        height: least(h as int, area.height as int) as u16,
    }
}

/// The middle of the rectangle can be addressed.
pub open spec fn has_middle(w: u16, h: u16, area: Rect) -> bool {
    &&& area.x + less(area.width as int, w as int) / 2 <= u16::MAX
    &&& area.y + less(area.height as int, h as int) / 2 <= u16::MAX
}

/// A rectangle of the given size in the middle of another, cut down to fit.
pub fn centered(w: u16, h: u16, area: Rect) -> (r: Rect)
    requires
        has_middle(w, h, area),
    ensures
        r == middle_of(w, h, area),
{
    let x: u16 = area.x + area.width.saturating_sub(w) / 2;
    let y: u16 = area.y + area.height.saturating_sub(h) / 2;
    let width: u16 = if w <= area.width {
        w
    } else {
        area.width
    };
    let height: u16 = if h <= area.height {
        h
    } else {
        area.height
    };
    Rect { x, y, width, height }
}

/// A centred rectangle lies within the one that it is centred in.
pub proof fn middle_lies_within(w: u16, h: u16, area: Rect)
    requires
        has_middle(w, h, area),
    ensures
        lies_within(middle_of(w, h, area), area),
{
}

/// What is inside a border lies within the border.
pub proof fn inside_lies_within(area: Rect)
    ensures
        lies_within(inside(area), area),
{
}

} // verus!
