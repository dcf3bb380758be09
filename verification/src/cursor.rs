//! The cursor snapshot that the editing session supplies once per frame.

use vstd::prelude::*;

verus! {

/// The logical outline of the cursor.
#[derive(Clone, Copy, Debug, PartialEq, Eq, Structural)]
pub enum CursorShape {
    Block,
    Vertical,
    Horizontal,
}

/// The thickness of a bar-shaped cursor as the exact ratio `parts / whole` of a cell.
#[derive(Clone, Copy, Debug, PartialEq, Eq, Structural)]
pub struct CellFraction {
    pub parts: u32,
    pub whole: u32,
}

impl CellFraction {
    /// The ratio lies in (0, 1].
    pub open spec fn wf(self) -> bool {
        0 < self.parts <= self.whole
    }

    /// `Some(parts / whole)` exactly when that ratio lies in (0, 1].
    pub fn new(parts: u32, whole: u32) -> (fraction: Option<CellFraction>)
        ensures
            fraction == (if 0 < parts <= whole {
                Some(CellFraction { parts, whole })
            } else {
                None
            }),
    {
        if 0 < parts && parts <= whole {
            Some(CellFraction { parts, whole })
        } else {
            None
        }
    }

    /// One eighth of a cell: the thickness used when a snapshot names none.
    pub fn default_thickness() -> (fraction: CellFraction)
        ensures
            fraction == default_cell_fraction(),
    {
        CellFraction { parts: 1, whole: 8 }
    }
}

/// One eighth of a cell.
pub open spec fn default_cell_fraction() -> CellFraction {
    CellFraction { parts: 1, whole: 8 }
}

/// A cell of the grid: `x` counts cells from the left, `y` from the top.
#[derive(Clone, Copy, Debug, PartialEq, Eq, Structural)]
pub struct GridPosition {
    pub x: u64,
    pub y: u64,
}

/// One cursor snapshot. Two snapshots are the same cursor event exactly when
/// all their fields agree.
#[derive(Clone, Copy, Debug, PartialEq, Eq, Structural)]
pub struct Cursor {
    pub position: GridPosition,
    pub shape: CursorShape,
    pub cell_percentage: Option<CellFraction>,
    /// Milliseconds a fresh cursor is held before blinking starts.
    pub blinkwait: Option<u64>,
    /// Milliseconds of each visible phase.
    pub blinkon: Option<u64>,
    /// Milliseconds of each hidden phase.
    pub blinkoff: Option<u64>,
    pub enabled: bool,
}

impl Cursor {
    /// The thickness ratio, where present, lies in (0, 1].
    pub open spec fn wf(self) -> bool {
        self.cell_percentage matches Some(fraction) ==> fraction.wf()
    }

    /// The thickness ratio in force: the snapshot's own, or one eighth.
    pub open spec fn thickness(self) -> CellFraction {
        match self.cell_percentage {
            Some(fraction) => fraction,
            None => default_cell_fraction(),
        }
    }
}

} // verus!
