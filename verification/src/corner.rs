//! The corner animator: each corner of the outline eases towards its target
//! on the drawing surface, faster where it leads the motion and slower where
//! it trails.
//!
//! Surface coordinates are whole thousandths of a surface unit, so the
//! arrival distance of one thousandth is one step.

use vstd::prelude::*;
use vstd::arithmetic::div_mod::{lemma_div_is_ordered, lemma_fundamental_div_mod, lemma_mod_bound};
use crate::shape::Offset;

verus! {

/// The largest cell dimension and the largest distance of a cell's centre
/// from the origin along either axis, in steps.
pub const SURFACE_LIMIT: i64 = 268_435_456;

/// The easing percentage of a corner that neither leads nor trails, in thousandths.
pub const AVERAGE_MOTION: i64 = 700;

/// How far, in thousandths, leading and trailing corners are spread around the average.
pub const MOTION_SPREAD: i64 = 500;

/// A point of the drawing surface, or a displacement on it, in steps.
#[derive(Clone, Copy, Debug, PartialEq, Eq, Structural)]
pub struct SurfacePoint {
    pub x: i64,
    pub y: i64,
}

impl SurfacePoint {
    /// Neither coordinate is further than `limit` from zero.
    pub open spec fn within(self, limit: int) -> bool {
        -limit <= self.x <= limit && -limit <= self.y <= limit
    }
}

/// The width and height of one cell, in steps.
#[derive(Clone, Copy, Debug, PartialEq, Eq, Structural)]
pub struct CellSize {
    pub width: u32,
    pub height: u32,
}

impl CellSize {
    /// Both dimensions are within the surface limit.
    pub open spec fn wf(self) -> bool {
        self.width <= SURFACE_LIMIT && self.height <= SURFACE_LIMIT
    }
}

/// A pair of exact coordinates.
pub struct Vector {
    pub x: int,
    pub y: int,
}

pub open spec fn dot(a: Vector, b: Vector) -> int {
    a.x * b.x + a.y * b.y
}

pub open spec fn length_squared(a: Vector) -> int {
    dot(a, a)
}

pub open spec fn difference(a: Vector, b: Vector) -> Vector {
    Vector { x: a.x - b.x, y: a.y - b.y }
}

pub open spec fn vector_of(p: SurfacePoint) -> Vector {
    Vector { x: p.x as int, y: p.y as int }
}

/// The quotient rounded towards zero.
pub open spec fn toward_zero(n: int, d: int) -> int {
    if n >= 0 {
        n / d
    } else {
        -((-n) / d)
    }
}

/// `root` is the whole part of the square root of `n`.
pub open spec fn is_root(root: int, n: int) -> bool {
    0 <= root && root * root <= n < (root + 1) * (root + 1)
}

/// The whole part of the square root of `n`.
pub open spec fn whole_root(n: int) -> int {
    choose|root: int| is_root(root, n)
}

/// The corner's offset from the cell centre on the surface: the relative
/// offset scaled by the cell's dimensions, rounded towards the centre.
pub open spec fn scaled_offset(relative: Offset, cell: CellSize) -> Vector {
    Vector {
        x: toward_zero(relative.x * cell.width, relative.unit as int),
        y: toward_zero(relative.y * cell.height, relative.unit as int),
    }
}

/// Where the corner belongs on the surface.
pub open spec fn corner_target(relative: Offset, cell: CellSize, center: SurfacePoint) -> Vector {
    Vector {
        x: center.x + scaled_offset(relative, cell).x,
        y: center.y + scaled_offset(relative, cell).y,
    }
}

/// The share of the remaining way that a corner covers in one frame, in
/// thousandths: the average, shifted by the projection of the corner's
/// scaled offset on the direction of travel, taken relative to the length of
/// the cell's diagonal.
pub open spec fn motion_percentage(delta: Vector, scaled: Vector, cell: CellSize) -> int {
    let diagonal = Vector { x: cell.width as int, y: cell.height as int };
    let lengths = whole_root(length_squared(delta) * length_squared(diagonal));
    if lengths == 0 {
        AVERAGE_MOTION as int
    } else {
        AVERAGE_MOTION + toward_zero(MOTION_SPREAD * dot(delta, scaled), lengths)
    }
}

/// The part of a remaining way `delta` along one axis that is covered at
/// `percentage` thousandths, rounded away from zero so that a corner that
/// has not arrived always moves.
pub open spec fn eased_step(delta: int, percentage: int) -> int {
    if delta >= 0 {
        (delta * percentage + 999) / 1000
    } else {
        -((-delta * percentage + 999) / 1000)
    }
}

/// The corner's position after one frame towards `target`.
pub open spec fn eased_position(
    current: Vector,
    target: Vector,
    scaled: Vector,
    cell: CellSize,
) -> Vector {
    let delta = difference(target, current);
    if delta.x == 0 && delta.y == 0 {
        current
    } else {
        let percentage = motion_percentage(delta, scaled, cell);
        Vector {
            x: current.x + eased_step(delta.x, percentage),
            y: current.y + eased_step(delta.y, percentage),
        }
    }
}

/// The corner's position after `frames` frames towards one fixed target.
pub open spec fn eased_position_after(
    current: Vector,
    target: Vector,
    scaled: Vector,
    cell: CellSize,
    frames: nat,
) -> Vector
    decreases frames,
{
    if frames == 0 {
        current
    } else {
        eased_position(
            eased_position_after(current, target, scaled, cell, (frames - 1) as nat),
            target,
            scaled,
            cell,
        )
    }
}

/// The sum of the two coordinates' distances from zero.
pub open spec fn taxicab(a: Vector) -> int {
    (if a.x >= 0 { a.x } else { -a.x }) + (if a.y >= 0 { a.y } else { -a.y })
}

/// A number has one whole root only.
pub proof fn lemma_root_unique(first: int, second: int, n: int)
    requires
        is_root(first, n),
        is_root(second, n),
    ensures
        first == second,
{
    if first < second {
        assert((first + 1) * (first + 1) <= second * second) by (nonlinear_arith)
            requires
                0 <= first + 1 <= second,
        ;
    }
    if second < first {
        assert((second + 1) * (second + 1) <= first * first) by (nonlinear_arith)
            requires
                0 <= second + 1 <= first,
        ;
    }
}

/// The projection of one vector on another is no longer than the other:
/// the square of a dot product is at most the product of the squared lengths.
pub proof fn lemma_dot_bound(a: Vector, b: Vector)
    ensures
        dot(a, b) * dot(a, b) <= length_squared(a) * length_squared(b),
{
    let (ax, ay, bx, by) = (a.x, a.y, b.x, b.y);
    let p = ax * bx;
    let q = ay * by;
    let r = ax * by;
    let s = ay * bx;
    assert((ax * ax) * (bx * bx) == p * p) by (nonlinear_arith)
        requires
            p == ax * bx,
    ;
    assert((ay * ay) * (by * by) == q * q) by (nonlinear_arith)
        requires
            q == ay * by,
    ;
    assert((ax * ax) * (by * by) == r * r) by (nonlinear_arith)
        requires
            r == ax * by,
    ;
    assert((ay * ay) * (bx * bx) == s * s) by (nonlinear_arith)
        requires
            s == ay * bx,
    ;
    assert(p * q == r * s) by (nonlinear_arith)
        requires
            p == ax * bx,
            q == ay * by,
            r == ax * by,
            s == ay * bx,
    ;
    assert(r * r + s * s - 2 * (r * s) >= 0) by (nonlinear_arith);
    assert((p + q) * (p + q) == p * p + 2 * (p * q) + q * q) by (nonlinear_arith);
    let (aa, ab, ba, bb) = (ax * ax, ay * ay, bx * bx, by * by);
    assert((aa + ab) * (ba + bb) == aa * ba + aa * bb + ab * ba + ab * bb) by (nonlinear_arith);
}

/// A quotient rounded towards zero is as bounded as its dividend.
pub proof fn lemma_toward_zero_bound(n: int, d: int, bound: int)
    requires
        d > 0,
        bound >= 0,
        -bound * d <= n <= bound * d,
    ensures
        -bound <= toward_zero(n, d) <= bound,
{
    let m = if n >= 0 { n } else { -n };
    assert(-bound * d == -(bound * d)) by (nonlinear_arith);
    lemma_fundamental_div_mod(m, d);
    lemma_mod_bound(m, d);
    let q = m / d;
    assert(0 <= q <= bound) by (nonlinear_arith)
        requires
            m == d * q + m % d,
            0 <= m % d < d,
            0 <= m <= bound * d,
            d > 0,
    ;
}

/// Rounding towards zero keeps the order of the dividends.
pub proof fn lemma_toward_zero_ordered(smaller: int, larger: int, d: int)
    requires
        d > 0,
        smaller <= larger,
    ensures
        toward_zero(smaller, d) <= toward_zero(larger, d),
{
    if smaller >= 0 {
        lemma_div_is_ordered(smaller, larger, d);
    } else if larger < 0 {
        lemma_div_is_ordered(-larger, -smaller, d);
    } else {
        lemma_div_is_ordered(0, -smaller, d);
        lemma_div_is_ordered(0, larger, d);
    }
}

/// Of two corners on the same way, the one whose offset points further
/// along the direction of travel covers at least as large a share of it:
/// leading corners are no slower than trailing ones.
pub proof fn lemma_leading_corner_is_no_slower(
    delta: Vector,
    trailing: Vector,
    leading: Vector,
    cell: CellSize,
)
    requires
        dot(delta, trailing) <= dot(delta, leading),
    ensures
        motion_percentage(delta, trailing, cell) <= motion_percentage(delta, leading, cell),
{
    let diagonal = Vector { x: cell.width as int, y: cell.height as int };
    let product = length_squared(delta) * length_squared(diagonal);
    lemma_square_order(0, delta.x);
    lemma_square_order(0, delta.y);
    lemma_square_order(0, diagonal.x);
    lemma_square_order(0, diagonal.y);
    assert(product >= 0) by (nonlinear_arith)
        requires
            product == length_squared(delta) * length_squared(diagonal),
            length_squared(delta) >= 0,
            length_squared(diagonal) >= 0,
    ;
    lemma_root_exists(product);
    if whole_root(product) != 0 {
        lemma_toward_zero_ordered(
            MOTION_SPREAD * dot(delta, trailing),
            MOTION_SPREAD * dot(delta, leading),
            whole_root(product),
        );
    }
}

/// A corner inside its cell is scaled to a point inside the cell: no
/// further from the centre than half the cell's width and height.
pub proof fn lemma_scaled_within_half_cell(relative: Offset, cell: CellSize)
    requires
        relative.within_cell(),
    ensures
        -(cell.width as int) <= 2 * scaled_offset(relative, cell).x <= cell.width,
        -(cell.height as int) <= 2 * scaled_offset(relative, cell).y <= cell.height,
{
    lemma_half_scale(relative.x as int, cell.width as int, relative.unit as int);
    lemma_half_scale(relative.y as int, cell.height as int, relative.unit as int);
}

/// Scaling a length by a ratio of at most one half gives at most half the length.
proof fn lemma_half_scale(offset: int, length: int, unit: int)
    requires
        unit > 0,
        length >= 0,
        -unit <= 2 * offset <= unit,
    ensures
        -length <= 2 * toward_zero(offset * length, unit) <= length,
{
    let magnitude = if offset >= 0 { offset } else { -offset };
    let n = magnitude * length;
    assert(n >= 0 && (offset < 0 ==> offset * length == -n)) by (nonlinear_arith)
        requires
            n == magnitude * length,
            magnitude == (if offset >= 0 { offset } else { -offset }),
            length >= 0,
    ;
    lemma_fundamental_div_mod(n, unit);
    lemma_mod_bound(n, unit);
    let q = n / unit;
    assert(0 <= 2 * q <= length) by (nonlinear_arith)
        requires
            n == unit * q + n % unit,
            0 <= n % unit < unit,
            n == magnitude * length,
            0 <= 2 * magnitude <= unit,
            length >= 0,
            unit > 0,
    ;
}

/// The easing percentage of a corner inside its cell lies between 45% and
/// 95%: every corner moves towards its target and none overshoots.
pub proof fn lemma_percentage_bounds(delta: Vector, relative: Offset, cell: CellSize)
    requires
        relative.within_cell(),
    ensures
        450 <= motion_percentage(delta, scaled_offset(relative, cell), cell) <= 950,
{
    let scaled = scaled_offset(relative, cell);
    let diagonal = Vector { x: cell.width as int, y: cell.height as int };
    let product = length_squared(delta) * length_squared(diagonal);
    let lengths = whole_root(product);
    lemma_scaled_within_half_cell(relative, cell);
    lemma_dot_bound(delta, scaled);
    let d = dot(delta, scaled);
    let (sx, sy, w, h) = (scaled.x, scaled.y, cell.width as int, cell.height as int);
    assert(4 * (sx * sx) <= w * w) by (nonlinear_arith)
        requires
            -w <= 2 * sx <= w,
    ;
    assert(4 * (sy * sy) <= h * h) by (nonlinear_arith)
        requires
            -h <= 2 * sy <= h,
    ;
    let dd = length_squared(delta);
    assert(dd >= 0) by (nonlinear_arith)
        requires
            dd == delta.x * delta.x + delta.y * delta.y,
    ;
    assert(4 * (d * d) <= product) by (nonlinear_arith)
        requires
            d * d <= dd * (sx * sx + sy * sy),
            4 * (sx * sx) <= w * w,
            4 * (sy * sy) <= h * h,
            dd >= 0,
            product == dd * (w * w + h * h),
    ;
    assert(product >= 0);
    lemma_root_exists(product);
    if lengths != 0 {
        let m = if d >= 0 { d } else { -d };
        assert(2 * m <= lengths) by (nonlinear_arith)
            requires
                4 * (d * d) <= product,
                product < (lengths + 1) * (lengths + 1),
                lengths >= 0,
                m >= 0,
                m == d || m == -d,
        ;
        lemma_toward_zero_bound(MOTION_SPREAD * d, lengths, 250);
    }
}

/// Every number from zero on has a whole root.
pub proof fn lemma_root_exists(n: int)
    requires
        n >= 0,
    ensures
        is_root(whole_root(n), n),
    decreases n,
{
    if n == 0 {
        assert(is_root(0, 0));
    } else {
        lemma_root_exists(n - 1);
        let r = whole_root(n - 1);
        if (r + 1) * (r + 1) <= n {
            assert((r + 1) * (r + 1) == n);
            assert(n < (r + 2) * (r + 2)) by (nonlinear_arith)
                requires
                    (r + 1) * (r + 1) == n,
                    r >= 0,
            ;
            assert(is_root(r + 1, n));
        } else {
            assert(is_root(r, n));
        }
    }
}

/// One step along one axis at a percentage between 45% and 95% goes
/// towards the target, never past it, and is at least one whole step while
/// anything remains.
pub proof fn lemma_step_bounds(delta: int, percentage: int)
    requires
        450 <= percentage <= 950,
    ensures
        delta > 0 ==> 1 <= eased_step(delta, percentage) <= delta,
        delta < 0 ==> delta <= eased_step(delta, percentage) <= -1,
        delta == 0 ==> eased_step(delta, percentage) == 0,
{
    let m = if delta >= 0 { delta } else { -delta };
    let t = m * percentage;
    assert(450 * m <= t <= 950 * m) by (nonlinear_arith)
        requires
            t == m * percentage,
            m >= 0,
            450 <= percentage <= 950,
    ;
    assert(delta < 0 ==> -delta * percentage == t) by (nonlinear_arith)
        requires
            delta < 0 ==> m == -delta,
            t == m * percentage,
    ;
    assert(delta == 0 ==> delta * percentage == 0) by (nonlinear_arith);
}

/// One frame brings a corner inside its cell nearer to its target along
/// both axes and never past it: the distance to the target does not grow,
/// and it shrinks as long as the corner has not arrived. A corner that has
/// arrived stays.
pub proof fn lemma_frame_approaches(
    current: Vector,
    relative: Offset,
    cell: CellSize,
    center: SurfacePoint,
)
    requires
        relative.within_cell(),
    ensures
        ({
            let target = corner_target(relative, cell, center);
            let next = eased_position(current, target, scaled_offset(relative, cell), cell);
            let before = difference(target, current);
            let after = difference(target, next);
            &&& 0 <= after.x <= before.x || before.x <= after.x <= 0
            &&& 0 <= after.y <= before.y || before.y <= after.y <= 0
            &&& length_squared(after) <= length_squared(before)
            &&& current != target ==> length_squared(after) < length_squared(before)
            &&& current != target ==> taxicab(after) < taxicab(before)
            &&& current == target ==> next == target
        }),
{
    let target = corner_target(relative, cell, center);
    let scaled = scaled_offset(relative, cell);
    let next = eased_position(current, target, scaled, cell);
    let before = difference(target, current);
    let after = difference(target, next);
    if before.x == 0 && before.y == 0 {
        assert(current == target);
    } else {
        let percentage = motion_percentage(before, scaled, cell);
        lemma_percentage_bounds(before, relative, cell);
        lemma_step_bounds(before.x, percentage);
        lemma_step_bounds(before.y, percentage);
        lemma_square_order(after.x, before.x);
        lemma_square_order(after.y, before.y);
    }
}

/// Of two numbers on the same side of zero, the one nearer to zero has the
/// smaller square.
proof fn lemma_square_order(near: int, far: int)
    requires
        0 <= near <= far || far <= near <= 0,
    ensures
        near * near <= far * far,
        near != far ==> near * near < far * far,
{
    assert(near * near <= far * far) by (nonlinear_arith)
        requires
            0 <= near <= far || far <= near <= 0,
    ;
    if near != far {
        assert(near * near < far * far) by (nonlinear_arith)
            requires
                0 <= near < far || far < near <= 0,
        ;
    }
}

/// With the target held fixed, the distance to it never grows from one
/// frame to the next, and the corner has arrived after at most as many
/// frames as the target was steps away along the two axes together. From
/// then on it stays at the target.
pub proof fn lemma_converges(
    current: Vector,
    relative: Offset,
    cell: CellSize,
    center: SurfacePoint,
    frames: nat,
)
    requires
        relative.within_cell(),
    ensures
        ({
            let target = corner_target(relative, cell, center);
            let scaled = scaled_offset(relative, cell);
            let now = eased_position_after(current, target, scaled, cell, frames);
            let next = eased_position_after(current, target, scaled, cell, frames + 1);
            let start = taxicab(difference(target, current));
            &&& length_squared(difference(target, next)) <= length_squared(
                difference(target, now),
            )
            &&& taxicab(difference(target, now)) <= (if frames <= start {
                start - frames
            } else {
                0
            })
            &&& frames >= start ==> now == target
        }),
    decreases frames,
{
    let target = corner_target(relative, cell, center);
    let scaled = scaled_offset(relative, cell);
    let now = eased_position_after(current, target, scaled, cell, frames);
    lemma_frame_approaches(now, relative, cell, center);
    assert(eased_position_after(current, target, scaled, cell, frames + 1) == eased_position(
        now,
        target,
        scaled,
        cell,
    ));
    if frames > 0 {
        let earlier = eased_position_after(current, target, scaled, cell, (frames - 1) as nat);
        lemma_converges(current, relative, cell, center, (frames - 1) as nat);
        lemma_frame_approaches(earlier, relative, cell, center);
    }
}

/// The product of two bounded numbers is bounded by the product of the bounds.
proof fn lemma_product_bound(a: int, b: int, bound_a: int, bound_b: int)
    requires
        -bound_a <= a <= bound_a,
        -bound_b <= b <= bound_b,
    ensures
        -(bound_a * bound_b) <= a * b <= bound_a * bound_b,
{
    assert(-(bound_a * bound_b) <= a * b <= bound_a * bound_b) by (nonlinear_arith)
        requires
            -bound_a <= a <= bound_a,
            -bound_b <= b <= bound_b,
    ;
}

/// The quotient of `n` by `d`, rounded towards zero.
fn div_toward_zero(n: i128, d: i128) -> (q: i128)
    requires
        d > 0,
        n > i128::MIN,
    ensures
        q == toward_zero(n as int, d as int),
{
    if n >= 0 {
        n / d
    } else {
        let m: i128 = -n;
        let q: i128 = m / d;
        -q
    }
}

/// The whole part of the square root of `n`.
pub fn integer_root(n: u128) -> (root: u128)
    ensures
        root == whole_root(n as int),
        is_root(root as int, n as int),
        root < 0x1_0000_0000_0000_0000,
{
    let mut low: u128 = 0;
    let mut high: u128 = 0x1_0000_0000_0000_0000;
    assert(0x1_0000_0000_0000_0000int * 0x1_0000_0000_0000_0000int
        == 0x1_0000_0000_0000_0000_0000_0000_0000_0000int) by (nonlinear_arith);
    while high - low > 1
        invariant
            low < high <= 0x1_0000_0000_0000_0000,
            low * low <= n < high * high,
        decreases high - low,
    {
        let middle: u128 = low + (high - low) / 2;
        assert(middle * middle <= 0xffff_ffff_ffff_ffff * 0xffff_ffff_ffff_ffff)
            by (nonlinear_arith)
            requires
                0 <= middle <= 0xffff_ffff_ffff_ffff,
        ;
        if middle * middle <= n {
            low = middle;
        } else {
            high = middle;
        }
    }
    proof {
        lemma_root_exists(n as int);
        lemma_root_unique(low as int, whole_root(n as int), n as int);
    }
    low
}

/// The step along one axis for a remaining way and a percentage.
fn ease(delta: i128, percentage: i128) -> (step: i128)
    requires
        -0x1_0000_0000_0000 <= delta <= 0x1_0000_0000_0000,
        450 <= percentage <= 950,
    ensures
        step == eased_step(delta as int, percentage as int),
{
    proof {
        lemma_product_bound(delta as int, percentage as int, 0x1_0000_0000_0000, 950);
    }
    if delta >= 0 {
        (delta * percentage + 999) / 1000
    } else {
        let way: i128 = -delta;
        proof {
            lemma_product_bound(way as int, percentage as int, 0x1_0000_0000_0000, 950);
            assert(way * percentage >= 0) by (nonlinear_arith)
                requires
                    way >= 0,
                    percentage >= 0,
            ;
        }
        let step: i128 = (way * percentage + 999) / 1000;
        -step
    }
}

/// One corner of the cursor outline.
#[derive(Clone, Copy, Debug, PartialEq, Eq, Structural)]
pub struct Corner {
    /// Where the corner is drawn now.
    pub current_position: SurfacePoint,
    /// Where the corner belongs, as an offset from the centre of the cursor's cell.
    pub relative_position: Offset,
}

impl Corner {
    /// The target lies inside its cell, and the corner is on the surface.
    pub open spec fn wf(self) -> bool {
        &&& self.relative_position.within_cell()
        &&& self.current_position.within(2 * SURFACE_LIMIT)
    }

    /// A corner at the origin of the surface with the given target offset.
    pub fn new(relative_position: Offset) -> (corner: Corner)
        ensures
            corner.relative_position == relative_position,
            corner.current_position == (SurfacePoint { x: 0, y: 0 }),
    {
        Corner { current_position: SurfacePoint { x: 0, y: 0 }, relative_position }
    }

    /// One frame of easing towards the corner's place around the cell
    /// centre `destination`. Returns whether the corner is still more than
    /// one step, a thousandth of a surface unit, away from its target.
    pub fn update(&mut self, font_dimensions: CellSize, destination: SurfacePoint) -> (animating:
        bool)
        requires
            old(self).wf(),
            font_dimensions.wf(),
            destination.within(SURFACE_LIMIT as int),
        ensures
            final(self).relative_position == old(self).relative_position,
            vector_of(final(self).current_position) == eased_position(
                vector_of(old(self).current_position),
                corner_target(old(self).relative_position, font_dimensions, destination),
                scaled_offset(old(self).relative_position, font_dimensions),
                font_dimensions,
            ),
            animating == (length_squared(
                difference(
                    corner_target(old(self).relative_position, font_dimensions, destination),
                    vector_of(final(self).current_position),
                ),
            ) > 1),
            final(self).wf(),
    {
        let relative: Offset = self.relative_position;
        let unit: i128 = relative.unit as i128;
        let width: i128 = font_dimensions.width as i128;
        let height: i128 = font_dimensions.height as i128;
        let ghost scaled = scaled_offset(relative, font_dimensions);
        let ghost target = corner_target(relative, font_dimensions, destination);
        let ghost start = vector_of(self.current_position);
        let ghost delta = difference(target, start);
        proof {
            lemma_scaled_within_half_cell(relative, font_dimensions);
            lemma_product_bound(
                relative.x as int,
                width as int,
                0x4000_0000_0000_0000,
                SURFACE_LIMIT as int,
            );
            lemma_product_bound(
                relative.y as int,
                height as int,
                0x4000_0000_0000_0000,
                SURFACE_LIMIT as int,
            );
        }
        let scaled_x: i128 = div_toward_zero(relative.x as i128 * width, unit);
        let scaled_y: i128 = div_toward_zero(relative.y as i128 * height, unit);
        let target_x: i128 = destination.x as i128 + scaled_x;
        let target_y: i128 = destination.y as i128 + scaled_y;
        let delta_x: i128 = target_x - self.current_position.x as i128;
        let delta_y: i128 = target_y - self.current_position.y as i128;
        if delta_x == 0 && delta_y == 0 {
            return false;
        }
        proof {
            lemma_product_bound(delta_x as int, delta_x as int, 0x4000_0000, 0x4000_0000);
            lemma_product_bound(delta_y as int, delta_y as int, 0x4000_0000, 0x4000_0000);
            lemma_product_bound(width as int, width as int, 0x1000_0000, 0x1000_0000);
            lemma_product_bound(height as int, height as int, 0x1000_0000, 0x1000_0000);
            lemma_product_bound(delta_x as int, scaled_x as int, 0x4000_0000, 0x1000_0000);
            lemma_product_bound(delta_y as int, scaled_y as int, 0x4000_0000, 0x1000_0000);
            lemma_square_order(0, delta_x as int);
            lemma_square_order(0, delta_y as int);
            lemma_square_order(0, width as int);
            lemma_square_order(0, height as int);
        }
        let way_squared: i128 = delta_x * delta_x + delta_y * delta_y;
        let diagonal_squared: i128 = width * width + height * height;
        proof {
            lemma_product_bound(
                way_squared as int,
                diagonal_squared as int,
                0x2000_0000_0000_0000,
                0x200_0000_0000_0000,
            );
            assert(way_squared * diagonal_squared >= 0) by (nonlinear_arith)
                requires
                    way_squared >= 0,
                    diagonal_squared >= 0,
            ;
        }
        let lengths: i128 = integer_root((way_squared * diagonal_squared) as u128) as i128;
        let projection: i128 = delta_x * scaled_x + delta_y * scaled_y;
        proof {
            lemma_product_bound(
                MOTION_SPREAD as int,
                projection as int,
                500,
                0x800_0000_0000_0000,
            );
        }
        let percentage: i128 = if lengths == 0 {
            AVERAGE_MOTION as i128
        } else {
            AVERAGE_MOTION as i128 + div_toward_zero(MOTION_SPREAD as i128 * projection, lengths)
        };
        proof {
            lemma_percentage_bounds(delta, relative, font_dimensions);
            assert(percentage == motion_percentage(delta, scaled, font_dimensions));
            lemma_step_bounds(delta_x as int, percentage as int);
            lemma_step_bounds(delta_y as int, percentage as int);
        }
        let step_x: i128 = ease(delta_x, percentage);
        let step_y: i128 = ease(delta_y, percentage);
        let next_x: i128 = self.current_position.x as i128 + step_x;
        let next_y: i128 = self.current_position.y as i128 + step_y;
        self.current_position = SurfacePoint { x: next_x as i64, y: next_y as i64 };
        let rest_x: i128 = target_x - next_x;
        let rest_y: i128 = target_y - next_y;
        proof {
            lemma_product_bound(rest_x as int, rest_x as int, 0x4000_0000, 0x4000_0000);
            lemma_product_bound(rest_y as int, rest_y as int, 0x4000_0000, 0x4000_0000);
        }
        rest_x * rest_x + rest_y * rest_y > 1
    }
}

} // verus!
