use cursor_anim::corner::{integer_root, CellSize, Corner, SurfacePoint};
use cursor_anim::cursor::{CellFraction, CursorShape};
use cursor_anim::shape::{corner_for, Offset};

const CELL: CellSize = CellSize { width: 10_000, height: 20_000 };
const CENTER: SurfacePoint = SurfacePoint { x: 5_000, y: 10_000 };

fn block_corner(index: usize) -> Corner {
    let thickness = CellFraction::new(1, 8).unwrap();
    Corner::new(corner_for(&CursorShape::Block, thickness, index))
}

fn at(x: i64, y: i64) -> SurfacePoint {
    SurfacePoint { x, y }
}

fn distance_squared(a: SurfacePoint, b: SurfacePoint) -> i128 {
    let dx = (a.x - b.x) as i128;
    let dy = (a.y - b.y) as i128;
    dx * dx + dy * dy
}

#[test]
fn new_corner_starts_at_the_origin() {
    let offset = Offset { x: -3, y: 4, unit: 10 };
    let corner = Corner::new(offset);
    assert_eq!(corner.relative_position, offset);
    assert_eq!(corner.current_position, at(0, 0));
}

#[test]
fn integer_root_is_the_floor_of_the_square_root() {
    assert_eq!(integer_root(0), 0);
    assert_eq!(integer_root(1), 1);
    assert_eq!(integer_root(3), 1);
    assert_eq!(integer_root(4), 2);
    assert_eq!(integer_root(99), 9);
    assert_eq!(integer_root(100), 10);
    assert_eq!(integer_root(50_000_000_000_000_000), 223_606_797);
    assert_eq!(integer_root((1u128 << 120) - 1), (1u128 << 60) - 1);
    assert_eq!(integer_root(u128::MAX), u64::MAX as u128);
    assert_eq!(integer_root((u64::MAX as u128) * (u64::MAX as u128) - 1), u64::MAX as u128 - 1);
}

#[test]
fn corner_at_its_target_does_not_move() {
    // Top-left of the cell at the origin: the target is the origin itself.
    let mut corner = block_corner(0);
    assert!(!corner.update(CELL, CENTER));
    assert_eq!(corner.current_position, at(0, 0));
}

#[test]
fn leading_corner_covers_ninety_five_percent() {
    // Bottom-right: the offset points along the way, so the projection is
    // half the diagonal and the share is 700 + 250 thousandths.
    let mut corner = block_corner(2);
    assert!(corner.update(CELL, CENTER));
    assert_eq!(corner.current_position, at(9_500, 19_000));
}

#[test]
fn sideways_corners_cover_less() {
    // Top-right: 500 * 5e7 / 223606797 = 111, so 811 thousandths of 10000.
    let mut right = block_corner(1);
    assert!(right.update(CELL, CENTER));
    assert_eq!(right.current_position, at(8_110, 0));
    // Bottom-left: 500 * 2e8 / 447213595 = 223, so 923 thousandths of 20000.
    let mut left = block_corner(3);
    assert!(left.update(CELL, CENTER));
    assert_eq!(left.current_position, at(0, 18_460));
}

#[test]
fn trailing_corner_covers_less_than_the_average() {
    // The corner has to go left while its offset points right.
    let mut corner = block_corner(1);
    corner.current_position = at(20_000, 0);
    assert!(corner.update(CELL, CENTER));
    assert_eq!(corner.current_position, at(14_110, 0));
}

#[test]
fn steps_are_rounded_away_from_zero() {
    let mut corner = Corner::new(Offset { x: 0, y: 0, unit: 2 });
    corner.current_position = at(4_999, 10_002);
    // One step left along x, two along y; the share is the average, 70%.
    assert!(!corner.update(CELL, CENTER));
    assert_eq!(corner.current_position, at(5_000, 10_000));
    corner.current_position = at(5_003, 10_000);
    // 70% of three steps is 2.1, rounded away from zero to 3.
    assert!(!corner.update(CELL, CENTER));
    assert_eq!(corner.current_position, at(5_000, 10_000));
}

#[test]
fn arrival_is_reported_within_one_step() {
    let mut corner = Corner::new(Offset { x: 0, y: 0, unit: 2 });
    corner.current_position = at(5_000, 10_010);
    // 70% of ten steps leaves three: still animating.
    assert!(corner.update(CELL, CENTER));
    assert_eq!(corner.current_position, at(5_000, 10_003));
    assert!(!corner.update(CELL, CENTER));
    assert_eq!(corner.current_position, at(5_000, 10_000));
    assert!(!corner.update(CELL, CENTER));
}

#[test]
fn zero_sized_cell_uses_the_average_share() {
    let cell = CellSize { width: 0, height: 0 };
    let mut corner = block_corner(2);
    assert!(corner.update(cell, at(1_000, -2_000)));
    assert_eq!(corner.current_position, at(700, -1_400));
}

#[test]
fn scaled_offset_is_rounded_towards_the_centre() {
    // A third of 10 steps is 3.33: 3 to the right, and 3 to the left.
    let cell = CellSize { width: 10, height: 10 };
    let mut right = Corner::new(Offset { x: 1, y: 0, unit: 3 });
    right.current_position = at(3, 0);
    assert!(!right.update(cell, at(0, 0)));
    assert_eq!(right.current_position, at(3, 0));
    let mut left = Corner::new(Offset { x: -1, y: 0, unit: 3 });
    left.current_position = at(-3, 0);
    assert!(!left.update(cell, at(0, 0)));
    assert_eq!(left.current_position, at(-3, 0));
}

#[test]
fn distance_never_grows_and_the_corner_arrives() {
    for index in 0..4 {
        let mut corner = block_corner(index);
        corner.current_position = at(-123_456, 654_321);
        let center = at(77_000, 33_000);
        let half_x = if index == 0 || index == 3 { -5_000 } else { 5_000 };
        let half_y = if index == 0 || index == 1 { -10_000 } else { 10_000 };
        let target = at(center.x + half_x, center.y + half_y);
        let mut last = distance_squared(corner.current_position, target);
        let mut frames = 0;
        loop {
            let animating = corner.update(CELL, center);
            let now = distance_squared(corner.current_position, target);
            assert!(now < last || last == 0);
            assert_eq!(animating, now > 1);
            last = now;
            frames += 1;
            if !animating {
                break;
            }
            assert!(frames < 100);
        }
        assert!(!corner.update(CELL, center));
    }
}

#[test]
fn limits_are_accepted() {
    let limit = 268_435_456;
    let cell = CellSize { width: limit as u32, height: limit as u32 };
    let mut corner = block_corner(2);
    corner.current_position = at(-2 * limit, -2 * limit);
    assert!(corner.update(cell, at(limit, limit)));
    let moved = corner.current_position;
    assert!(moved.x > -2 * limit && moved.x < limit + limit / 2);
    assert!(moved.y > -2 * limit && moved.y < limit + limit / 2);
}
