//! The per-frame orchestration: advance the blink scheduler, reshape the
//! outline, and decide what is painted.

use vstd::prelude::*;
use crate::blink::{advance, initial_model, is_shown, BlinkModel, BlinkStatus};
use crate::cursor::{default_cell_fraction, CellFraction, Cursor, CursorShape, GridPosition};
use crate::corner::{
    corner_target, difference, eased_position, length_squared, scaled_offset, vector_of, CellSize,
    Corner, SurfacePoint, SURFACE_LIMIT,
};
use crate::shape::{corner_for, corner_offset, Offset};

verus! {

/// One instruction to the canvas.
#[derive(Clone, Copy, Debug, PartialEq, Eq, Structural)]
pub enum DrawCommand {
    /// Fill the closed path through the four corners with the background colour.
    FillOutline,
    /// Remember the canvas state.
    SaveState,
    /// Restrict drawing to the outline.
    ClipToOutline,
    /// Draw the character that occupies `cell`, at that cell's top-left
    /// corner, in the foreground colour.
    DrawGlyph { cell: GridPosition },
    /// Bring back the remembered canvas state, which lifts the clip.
    RestoreState,
}

/// What one frame decided.
pub struct Frame {
    /// Whether the blink cycle shows the cursor in this frame.
    pub visible: bool,
    /// Whether any corner is still on its way, so that another frame is due.
    pub animating: bool,
    /// The instructions to the canvas, in order.
    pub commands: Vec<DrawCommand>,
}

/// The instructions of a frame: none when the cursor is disabled or hidden,
/// else the outline fill followed by the glyph, drawn under a clip that is
/// lifted again.
pub open spec fn paint_sequence(enabled: bool, visible: bool, cell: GridPosition) -> Seq<
    DrawCommand,
> {
    if enabled && visible {
        seq![
            DrawCommand::FillOutline,
            DrawCommand::SaveState,
            DrawCommand::ClipToOutline,
            DrawCommand::DrawGlyph { cell },
            DrawCommand::RestoreState,
        ]
    } else {
        Seq::empty()
    }
}

/// How many of the instructions are equal to `command`.
pub open spec fn occurrences(commands: Seq<DrawCommand>, command: DrawCommand) -> nat
    decreases commands.len(),
{
    if commands.len() == 0 {
        0
    } else {
        occurrences(commands.drop_last(), command) + (if commands.last() == command {
            1nat
        } else {
            0nat
        })
    }
}

/// A frame issues no instruction at all when the cursor is disabled or the
/// blink cycle hides it. Otherwise it fills the outline exactly once and
/// draws the glyph of the cursor's cell exactly once; no instruction but the
/// fourth draws a glyph.
pub proof fn lemma_draw_gating(enabled: bool, visible: bool, cell: GridPosition)
    ensures
        !enabled || !visible ==> paint_sequence(enabled, visible, cell).len() == 0,
        enabled && visible ==> occurrences(
            paint_sequence(enabled, visible, cell),
            DrawCommand::FillOutline,
        ) == 1,
        enabled && visible ==> occurrences(
            paint_sequence(enabled, visible, cell),
            DrawCommand::DrawGlyph { cell },
        ) == 1,
        forall|i: int|
            0 <= i < paint_sequence(enabled, visible, cell).len() && (#[trigger] paint_sequence(
                enabled,
                visible,
                cell,
            )[i]) is DrawGlyph ==> i == 3,
{
    if enabled && visible {
        let full = paint_sequence(enabled, visible, cell);
        let four = full.drop_last();
        let three = four.drop_last();
        let two = three.drop_last();
        let one = two.drop_last();
        let none = one.drop_last();
        let fill = DrawCommand::FillOutline;
        let glyph = DrawCommand::DrawGlyph { cell };
        assert(none.len() == 0);
        assert(occurrences(none, fill) == 0 && occurrences(none, glyph) == 0);
        assert(occurrences(one, fill) == 1 && occurrences(one, glyph) == 0);
        assert(occurrences(two, fill) == 1 && occurrences(two, glyph) == 0);
        assert(occurrences(three, fill) == 1 && occurrences(three, glyph) == 0);
        assert(occurrences(four, fill) == 1 && occurrences(four, glyph) == 1);
    }
}

/// The character drawn for a grid cell: its own, or a space where the cell is empty.
pub fn character_or_blank(occupant: Option<char>) -> (character: char)
    ensures
        character == (match occupant {
            Some(c) => c,
            None => ' ',
        }),
{
    match occupant {
        Some(c) => c,
        None => ' ',
    }
}

/// The top-left corner of a grid cell on the surface.
pub open spec fn cell_origin(position: GridPosition, cell: CellSize) -> (int, int) {
    (position.x * cell.width, position.y * cell.height)
}

/// The centre of a grid cell on the surface: half a cell, rounded down to
/// whole steps, from its top-left corner.
pub open spec fn cell_center(position: GridPosition, cell: CellSize) -> (int, int) {
    (
        cell_origin(position, cell).0 + cell.width / 2,
        cell_origin(position, cell).1 + cell.height / 2,
    )
}

/// The cell's centre lies within the surface limit.
pub open spec fn on_surface(position: GridPosition, cell: CellSize) -> bool {
    &&& cell.wf()
    &&& cell_center(position, cell).0 <= SURFACE_LIMIT
    &&& cell_center(position, cell).1 <= SURFACE_LIMIT
}

/// A cursor whose cell centre is the very origin of the surface has not
/// been placed yet: its corners are not animated.
pub open spec fn is_unplaced(position: GridPosition, cell: CellSize) -> bool {
    cell_center(position, cell) == (0int, 0int)
}

/// The corner is more than one step away from its place around `center`.
pub open spec fn still_away(corner: Corner, cell: CellSize, center: SurfacePoint) -> bool {
    length_squared(
        difference(
            corner_target(corner.relative_position, cell, center),
            vector_of(corner.current_position),
        ),
    ) > 1
}

/// `after` is `before` retargeted to `relative` and eased one frame towards
/// its place around `center`.
pub open spec fn is_eased(
    before: Corner,
    after: Corner,
    relative: Offset,
    cell: CellSize,
    center: SurfacePoint,
) -> bool {
    &&& after.relative_position == relative
    &&& vector_of(after.current_position) == eased_position(
        vector_of(before.current_position),
        corner_target(relative, cell, center),
        scaled_offset(relative, cell),
        cell,
    )
}

/// `after` is `before` retargeted to `relative` and left where it is.
pub open spec fn is_parked(before: Corner, after: Corner, relative: Offset) -> bool {
    after.relative_position == relative && after.current_position == before.current_position
}

/// The centre of the cursor's cell on the surface, and whether the cursor
/// has been placed at all.
pub fn locate(position: GridPosition, cell: CellSize) -> (placed: (SurfacePoint, bool))
    requires
        on_surface(position, cell),
    ensures
        placed.0.x == cell_center(position, cell).0,
        placed.0.y == cell_center(position, cell).1,
        placed.0.within(SURFACE_LIMIT as int),
        placed.1 == !is_unplaced(position, cell),
{
    assert(position.x * cell.width >= 0 && position.y * cell.height >= 0) by (nonlinear_arith);
    assert(position.x * cell.width <= 0x1_0000_0000_0000_0000 * 0x1_0000_0000) by (nonlinear_arith)
        requires
            position.x < 0x1_0000_0000_0000_0000,
            cell.width < 0x1_0000_0000,
    ;
    assert(position.y * cell.height <= 0x1_0000_0000_0000_0000 * 0x1_0000_0000)
        by (nonlinear_arith)
        requires
            position.y < 0x1_0000_0000_0000_0000,
            cell.height < 0x1_0000_0000,
    ;
    let x: u128 = (position.x as u128) * (cell.width as u128) + (cell.width as u128) / 2;
    let y: u128 = (position.y as u128) * (cell.height as u128) + (cell.height as u128) / 2;
    let center = SurfacePoint { x: x as i64, y: y as i64 };
    (center, !(x == 0 && y == 0))
}

/// The cursor renderer: four outline corners and a blink scheduler.
pub struct CursorRenderer {
    pub corners: Vec<Corner>,
    blink_status: BlinkStatus,
}

impl CursorRenderer {
    /// The corners, in order.
    pub closed spec fn outline(&self) -> Seq<Corner> {
        self.corners@
    }

    /// The state of the blink scheduler.
    pub closed spec fn blink(&self) -> BlinkModel {
        self.blink_status@
    }

    /// The outline has its four corners, all of them on the surface.
    pub open spec fn wf(&self) -> bool {
        &&& self.outline().len() == 4
        &&& forall|i: int|
            0 <= i < 4 ==> (#[trigger] self.outline()[i]).current_position.within(
                2 * SURFACE_LIMIT,
            )
    }

    /// The four corners are the targets of `shape` at `thickness`, in the
    /// order top-left, top-right, bottom-right, bottom-left.
    pub open spec fn shaped_as(&self, shape: CursorShape, thickness: CellFraction) -> bool {
        &&& self.outline().len() == 4
        &&& forall|i: int|
            0 <= i < 4 ==> (#[trigger] self.outline()[i]).relative_position == corner_offset(
                shape,
                thickness,
                i,
            )
    }

    /// Every corner is where it is in `before`.
    pub open spec fn rests_as(&self, before: &CursorRenderer) -> bool {
        &&& self.outline().len() == before.outline().len()
        &&& forall|i: int|
            0 <= i < self.outline().len() ==> (#[trigger] self.outline()[i]).current_position
                == before.outline()[i].current_position
    }

    /// A renderer with a block outline, every corner at the origin of the
    /// surface, and a scheduler that has seen no cursor.
    pub fn new() -> (renderer: CursorRenderer)
        ensures
            renderer.wf(),
            renderer.shaped_as(CursorShape::Block, default_cell_fraction()),
            forall|i: int|
                0 <= i < 4 ==> (#[trigger] renderer.outline()[i]).current_position == (
                SurfacePoint { x: 0, y: 0 }),
            renderer.blink() == initial_model(),
    {
        let origin = Offset { x: 0, y: 0, unit: 1 };
        let mut corners: Vec<Corner> = Vec::new();
        let mut i: usize = 0;
        while i < 4
            invariant
                i <= 4,
                corners@.len() == i,
                forall|k: int|
                    0 <= k < i ==> (#[trigger] corners@[k]).current_position == (SurfacePoint {
                        x: 0,
                        y: 0,
                    }),
            decreases 4 - i,
        {
            corners.push(Corner::new(origin));
            i += 1;
        }
        let mut renderer = CursorRenderer { corners, blink_status: BlinkStatus::new() };
        renderer.set_cursor_shape(&CursorShape::Block, CellFraction::default_thickness());
        renderer
    }

    /// Corner `index` of the outline.
    pub fn corner(&self, index: usize) -> (corner: Corner)
        requires
            index < self.outline().len(),
        ensures
            corner == self.outline()[index as int],
    {
        self.corners[index]
    }

    /// Points every corner at its target for `cursor_shape` and
    /// `cell_percentage`, and leaves it where it is.
    pub fn set_cursor_shape(&mut self, cursor_shape: &CursorShape, cell_percentage: CellFraction)
        requires
            old(self).outline().len() == 4,
            cell_percentage.wf(),
        ensures
            final(self).shaped_as(*cursor_shape, cell_percentage),
            final(self).rests_as(old(self)),
            final(self).blink() == old(self).blink(),
            forall|i: int|
                0 <= i < 4 ==> (#[trigger] final(self).outline()[i]).relative_position.within_cell(),
    {
        let mut i: usize = 0;
        while i < 4
            invariant
                i <= 4,
                cell_percentage.wf(),
                self.corners@.len() == 4,
                self.blink_status == old(self).blink_status,
                forall|k: int|
                    0 <= k < 4 ==> (#[trigger] self.corners@[k]).current_position == old(
                        self,
                    ).corners@[k].current_position,
                forall|k: int|
                    0 <= k < i ==> (#[trigger] self.corners@[k]).relative_position
                        == corner_offset(*cursor_shape, cell_percentage, k),
                forall|k: int|
                    0 <= k < i ==> (#[trigger] self.corners@[k]).relative_position.within_cell(),
            decreases 4 - i,
        {
            let target: Offset = corner_for(cursor_shape, cell_percentage, i);
            let moved: Corner = Corner {
                current_position: self.corners[i].current_position,
                relative_position: target,
            };
            self.corners.set(i, moved);
            i += 1;
        }
    }

    /// Eases corner `index` one frame towards its place around `center`.
    fn ease_corner(&mut self, index: usize, cell: CellSize, center: SurfacePoint) -> (moving: bool)
        requires
            index < 4,
            old(self).corners@.len() == 4,
            old(self).corners@[index as int].wf(),
            cell.wf(),
            center.within(SURFACE_LIMIT as int),
        ensures
            final(self).corners@.len() == 4,
            final(self).blink_status == old(self).blink_status,
            forall|k: int|
                0 <= k < 4 && k != index ==> final(self).corners@[k] == old(self).corners@[k],
            is_eased(
                old(self).corners@[index as int],
                final(self).corners@[index as int],
                old(self).corners@[index as int].relative_position,
                cell,
                center,
            ),
            final(self).corners@[index as int].wf(),
            moving == still_away(final(self).corners@[index as int], cell, center),
    {
        let mut corner: Corner = self.corners[index];
        let moving: bool = corner.update(cell, center);
        self.corners.set(index, corner);
        moving
    }

    /// The part of a frame that follows the scheduler: reshape the outline,
    /// ease the corners, and list what is painted.
    fn compose(&mut self, cursor: &Cursor, cell: CellSize, visible: bool) -> (frame: Frame)
        requires
            old(self).wf(),
            cursor.wf(),
            on_surface(cursor.position, cell),
        ensures
            final(self).wf(),
            final(self).blink() == old(self).blink(),
            final(self).follows(old(self), *cursor, cell),
            frame.visible == visible,
            frame.animating == final(self).is_moving(*cursor, cell),
            frame.commands@ == paint_sequence(cursor.enabled, visible, cursor.position),
    {
        let thickness: CellFraction = match cursor.cell_percentage {
            Some(fraction) => fraction,
            None => CellFraction::default_thickness(),
        };
        self.set_cursor_shape(&cursor.shape, thickness);
        let (center, placed) = locate(cursor.position, cell);
        let mut animating: bool = false;
        if placed {
            let first: bool = self.ease_corner(0, cell, center);
            let second: bool = self.ease_corner(1, cell, center);
            let third: bool = self.ease_corner(2, cell, center);
            let fourth: bool = self.ease_corner(3, cell, center);
            animating = first || second || third || fourth;
        }
        let mut commands: Vec<DrawCommand> = Vec::new();
        if cursor.enabled && visible {
            commands.push(DrawCommand::FillOutline);
            commands.push(DrawCommand::SaveState);
            commands.push(DrawCommand::ClipToOutline);
            commands.push(DrawCommand::DrawGlyph { cell: cursor.position });
            commands.push(DrawCommand::RestoreState);
        }
        assert(commands@ =~= paint_sequence(cursor.enabled, visible, cursor.position));
        Frame { visible, animating, commands }
    }

    /// The outline after a frame for `cursor`, given the outline `before`
    /// it: every corner has the target of the cursor's shape and thickness;
    /// if the cursor is placed, every corner has been eased one frame towards
    /// its place around the centre of the cursor's cell, and otherwise every
    /// corner is where it was.
    pub open spec fn follows(&self, before: &CursorRenderer, cursor: Cursor, cell: CellSize) -> bool {
        let center = SurfacePoint {
            x: cell_center(cursor.position, cell).0 as i64,
            y: cell_center(cursor.position, cell).1 as i64,
        };
        &&& self.outline().len() == 4
        &&& forall|i: int|
            0 <= i < 4 ==> if is_unplaced(cursor.position, cell) {
                is_parked(
                    before.outline()[i],
                    #[trigger] self.outline()[i],
                    corner_offset(cursor.shape, cursor.thickness(), i),
                )
            } else {
                is_eased(
                    before.outline()[i],
                    self.outline()[i],
                    corner_offset(cursor.shape, cursor.thickness(), i),
                    cell,
                    center,
                )
            }
    }

    /// The cursor is placed and some corner is still more than one step
    /// away from its place around the centre of the cursor's cell.
    pub open spec fn is_moving(&self, cursor: Cursor, cell: CellSize) -> bool {
        let center = SurfacePoint {
            x: cell_center(cursor.position, cell).0 as i64,
            y: cell_center(cursor.position, cell).1 as i64,
        };
        &&& !is_unplaced(cursor.position, cell)
        &&& (still_away(self.outline()[0], cell, center) || still_away(
            self.outline()[1],
            cell,
            center,
        ) || still_away(self.outline()[2], cell, center) || still_away(
            self.outline()[3],
            cell,
            center,
        ))
    }

    /// One frame at the clock reading `now`, in nanoseconds since the
    /// renderer was made: the scheduler advances, the outline takes the
    /// snapshot's shape and thickness and eases towards the cursor's cell,
    /// and the cursor is painted exactly when it is enabled and the
    /// scheduler shows it.
    pub fn draw_at(&mut self, cursor: Cursor, cell: CellSize, now: u128) -> (frame: Frame)
        requires
            old(self).wf(),
            cursor.wf(),
            on_surface(cursor.position, cell),
        ensures
            final(self).wf(),
            final(self).blink() == advance(old(self).blink(), cursor, now as nat),
            final(self).follows(old(self), cursor, cell),
            frame.visible == is_shown(final(self).blink().state, cursor),
            frame.animating == final(self).is_moving(cursor, cell),
            frame.commands@ == paint_sequence(cursor.enabled, frame.visible, cursor.position),
    {
        let visible: bool = self.blink_status.update_status_at(&cursor, now);
        self.compose(&cursor, cell, visible)
    }

    /// One frame at the moment of the call. The clock decides the reading;
    /// the frame is the one that `draw_at` makes of it.
    pub fn draw(&mut self, cursor: Cursor, cell: CellSize) -> (frame: Frame)
        requires
            old(self).wf(),
            cursor.wf(),
            on_surface(cursor.position, cell),
        ensures
            final(self).wf(),
            exists|now: nat| #[trigger]
                advance(old(self).blink(), cursor, now) == final(self).blink(),
            final(self).follows(old(self), cursor, cell),
            frame.visible == is_shown(final(self).blink().state, cursor),
            frame.animating == final(self).is_moving(cursor, cell),
            frame.commands@ == paint_sequence(cursor.enabled, frame.visible, cursor.position),
    {
        let visible: bool = self.blink_status.update_status(&cursor);
        self.compose(&cursor, cell, visible)
    }
}

} // verus!
