//! The square of cells that an agent senses around the place where it stands.

use vstd::prelude::*;
use crate::cell::{precedes, Cell};

verus! {

/// How far an agent senses along each axis.
pub const SENSING_RADIUS: u32 = 3;

/// A grid position that may lie off the grid: where an agent stands once its
/// continuous position is truncated to whole numbers.
#[derive(Clone, Copy, Debug, PartialEq, Eq, Structural)]
pub struct GridPoint {
    pub x: i32,
    pub y: i32,
}

/// Whether `c` lies in the neighborhood of `center`: within `radius` of it
/// along both axes, with positive coordinates, and not `center` itself.
pub open spec fn in_reach(center: GridPoint, radius: u32, c: Cell) -> bool {
    &&& c.x >= 1
    &&& c.y >= 1
    &&& center.x - radius <= c.x <= center.x + radius
    &&& center.y - radius <= c.y <= center.y + radius
    &&& !(c.x == center.x && c.y == center.y)
}

/// What a step of the scan yields after `after`: the first cell of the
/// neighborhood, in scan order, that `after` precedes.
pub open spec fn is_next_in_reach(
    center: GridPoint,
    radius: u32,
    after: Cell,
    next: Option<Cell>,
) -> bool {
    match next {
        Some(c) => {
            &&& in_reach(center, radius, c)
            &&& precedes(after, c)
            &&& forall|d: Cell|
                #[trigger] in_reach(center, radius, d) && precedes(after, d) ==> !precedes(d, c)
        },
        None => forall|d: Cell| #[trigger] in_reach(center, radius, d) ==> !precedes(after, d),
    }
}

/// What a scan starts with: the first cell of the neighborhood in scan order.
pub open spec fn is_first_in_reach(center: GridPoint, radius: u32, first: Option<Cell>) -> bool {
    match first {
        Some(c) => {
            &&& in_reach(center, radius, c)
            &&& forall|d: Cell| #[trigger] in_reach(center, radius, d) ==> !precedes(d, c)
        },
        None => forall|d: Cell| !#[trigger] in_reach(center, radius, d),
    }
}

impl GridPoint {
    /// The point at column `x`, row `y`.
    pub fn new(x: i32, y: i32) -> (p: GridPoint)
        ensures
            p.x == x,
            p.y == y,
    {
        GridPoint { x, y }
    }
}

/// The first cell of the neighborhood of `center` in scan order, if the
/// neighborhood holds any cell.
pub fn first_in_reach(center: GridPoint, radius: u32) -> (first: Option<Cell>)
    ensures
        is_first_in_reach(center, radius, first),
{
    next_in_reach(center, radius, Cell { x: 0, y: 0 })
}

/// The cell of the neighborhood of `center` that follows `after` in scan
/// order, if there is one. `after` need not lie in the neighborhood.
pub fn next_in_reach(center: GridPoint, radius: u32, after: Cell) -> (next: Option<Cell>)
    ensures
        is_next_in_reach(center, radius, after, next),
{
    let r: i64 = radius as i64;
    let cx: i64 = center.x as i64;
    let cy: i64 = center.y as i64;
    let top: i64 = u32::MAX as i64;
    let lo_x: i64 = if cx - r < 1 { 1 } else { cx - r };
    let hi_x: i64 = if cx + r > top { top } else { cx + r };
    let lo_y: i64 = if cy - r < 1 { 1 } else { cy - r };
    let hi_y: i64 = if cy + r > top { top } else { cy + r };
    if lo_x > hi_x || lo_y > hi_y {
        return None;
    }
    let ax: i64 = after.x as i64;
    let ay: i64 = after.y as i64;
    let mut x: i64 = lo_x;
    let mut y: i64 = lo_y;
    if ax < lo_x {
    } else if ax > hi_x {
        return None;
    } else if ay < lo_y {
        x = ax;
    } else if ay < hi_y {
        x = ax;
        y = ay + 1;
    } else if ax < hi_x {
        x = ax + 1;
    } else {
        return None;
    }
    if x == cx && y == cy {
        if y < hi_y {
            y = y + 1;
        } else if x < hi_x {
            x = x + 1;
            y = lo_y;
        } else {
            return None;
        }
    }
    Some(Cell { x: x as u32, y: y as u32 })
}

} // verus!
