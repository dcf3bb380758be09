//! Shape geometry: the four corners of the cursor outline, as offsets from
//! the centre of a cell.

use vstd::prelude::*;
use vstd::arithmetic::div_mod::lemma_div_multiples_vanish;
use crate::cursor::{CellFraction, CursorShape};

verus! {

/// An offset from the centre of a cell. `x` and `y` count steps of
/// `1 / unit` of the cell's width and height; `x` grows to the right and `y`
/// downwards.
#[derive(Clone, Copy, Debug, PartialEq, Eq, Structural)]
pub struct Offset {
    pub x: i64,
    pub y: i64,
    pub unit: i64,
}

impl Offset {
    /// The offset lies within the cell, edges included.
    pub open spec fn within_cell(self) -> bool {
        &&& self.unit > 0
        &&& -self.unit <= 2 * self.x <= self.unit
        &&& -self.unit <= 2 * self.y <= self.unit
    }
}

/// The steps per cell in which the corners for a thickness are counted: two
/// for each step of the thickness ratio, so that half a cell is a whole count.
pub open spec fn unit_of(thickness: CellFraction) -> int {
    2 * thickness.whole
}

/// Corner `index` lies on the left edge of the outline. Corners run
/// top-left, top-right, bottom-right, bottom-left.
pub open spec fn on_left(index: int) -> bool {
    index == 0 || index == 3
}

/// Corner `index` lies on the top edge of the outline.
pub open spec fn on_top(index: int) -> bool {
    index == 0 || index == 1
}

/// Half a cell towards the left or top edge (negative) or towards the right
/// or bottom edge (positive), counted in steps of `1 / (2 * whole)`.
pub open spec fn half_cell(towards_origin: bool, thickness: CellFraction) -> int {
    if towards_origin {
        -(thickness.whole as int)
    } else {
        thickness.whole as int
    }
}

/// A coordinate after the edge at `+1/2` has been pulled towards the edge at
/// `-1/2` until the two are the thickness apart: `(c + 1/2) * ratio - 1/2`,
/// counted in steps of `1 / (2 * whole)`.
pub open spec fn shrink(coordinate: int, thickness: CellFraction) -> int {
    (coordinate + thickness.whole) * thickness.parts / (thickness.whole as int) - thickness.whole
}

/// Where corner `index` of the outline sits for a shape and a thickness.
/// A block fills the cell; a vertical bar keeps the left edge and pulls the
/// right edge in; a horizontal bar keeps the bottom edge and pulls the top
/// edge down.
pub open spec fn corner_offset(shape: CursorShape, thickness: CellFraction, index: int) -> Offset {
    let x = half_cell(on_left(index), thickness);
    let y = half_cell(on_top(index), thickness);
    let unit = unit_of(thickness);
    match shape {
        CursorShape::Block => Offset { x: x as i64, y: y as i64, unit: unit as i64 },
        CursorShape::Vertical => Offset {
            x: shrink(x, thickness) as i64,
            y: y as i64,
            unit: unit as i64,
        },
        CursorShape::Horizontal => Offset {
            x: x as i64,
            y: (-shrink(-y, thickness)) as i64,
            unit: unit as i64,
        },
    }
}

/// The two values that `shrink` takes on the edges of a cell: the edge at
/// `-1/2` stays, the edge at `+1/2` ends one thickness away from it.
pub proof fn lemma_shrink_edges(thickness: CellFraction)
    requires
        thickness.wf(),
    ensures
        shrink(-(thickness.whole as int), thickness) == -(thickness.whole as int),
        shrink(thickness.whole as int, thickness) == 2 * thickness.parts - thickness.whole,
{
    let whole = thickness.whole as int;
    let parts = thickness.parts as int;
    assert((-whole + whole) * parts == 0) by (nonlinear_arith);
    assert(0int / whole == 0);
    assert((whole + whole) * parts == whole * (2 * parts)) by (nonlinear_arith);
    lemma_div_multiples_vanish(2 * parts, whole);
}

/// Corner `index` of the outline for a shape and a thickness.
pub fn corner_for(shape: &CursorShape, thickness: CellFraction, index: usize) -> (offset: Offset)
    requires
        thickness.wf(),
        index < 4,
    ensures
        offset == corner_offset(*shape, thickness, index as int),
        offset.within_cell(),
{
    proof {
        lemma_shrink_edges(thickness);
    }
    let whole: i64 = thickness.whole as i64;
    let parts: i64 = thickness.parts as i64;
    let left: bool = index == 0 || index == 3;
    let top: bool = index == 0 || index == 1;
    let x: i64 = if left { -whole } else { whole };
    let y: i64 = if top { -whole } else { whole };
    let unit: i64 = 2 * whole;
    match shape {
        CursorShape::Block => Offset { x, y, unit },
        CursorShape::Vertical => Offset {
            x: if left { -whole } else { 2 * parts - whole },
            y,
            unit,
        },
        CursorShape::Horizontal => Offset {
            x,
            y: if top { whole - 2 * parts } else { whole },
            unit,
        },
    }
}

/// A bar is as thick as the ratio says, and its anchored edge is where the
/// block's edge is. For a vertical bar the two left corners keep the block's
/// offsets and each right corner lies `parts / whole` of a cell's width to
/// the right of the left corner at its height; for a horizontal bar the two
/// bottom corners keep the block's offsets and each top corner lies
/// `parts / whole` of a cell's height above the bottom corner on its side.
/// The other coordinate is the block's throughout.
pub proof fn lemma_bar_geometry(thickness: CellFraction)
    requires
        thickness.wf(),
    ensures
        ({
            let unit = unit_of(thickness);
            let block = |i: int| corner_offset(CursorShape::Block, thickness, i);
            let bar = |i: int| corner_offset(CursorShape::Vertical, thickness, i);
            let rule = |i: int| corner_offset(CursorShape::Horizontal, thickness, i);
            &&& bar(0) == block(0)
            &&& bar(3) == block(3)
            &&& bar(1).y == block(1).y
            &&& bar(2).y == block(2).y
            &&& (bar(1).x - bar(0).x) * thickness.whole == thickness.parts * unit
            &&& (bar(2).x - bar(3).x) * thickness.whole == thickness.parts * unit
            &&& rule(2) == block(2)
            &&& rule(3) == block(3)
            &&& rule(0).x == block(0).x
            &&& rule(1).x == block(1).x
            &&& (rule(3).y - rule(0).y) * thickness.whole == thickness.parts * unit
            &&& (rule(2).y - rule(1).y) * thickness.whole == thickness.parts * unit
        }),
{
    lemma_shrink_edges(thickness);
    let whole = thickness.whole as int;
    let parts = thickness.parts as int;
    assert((2 * parts) * whole == parts * (2 * whole)) by (nonlinear_arith);
}

/// A block spans the whole cell: its corners are the corners of the cell.
pub proof fn lemma_block_geometry(thickness: CellFraction, index: int)
    requires
        thickness.wf(),
        0 <= index < 4,
    ensures
        ({
            let corner = corner_offset(CursorShape::Block, thickness, index);
            &&& 2 * corner.x == (if on_left(index) { -corner.unit } else { corner.unit as int })
            &&& 2 * corner.y == (if on_top(index) { -corner.unit } else { corner.unit as int })
        }),
{
}

} // verus!
