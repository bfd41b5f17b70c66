//! Points of the plane, the two overlap tests, and the step that carries a
//! body some distance along a direction.

use vstd::prelude::*;
use crate::units::{
    floor_sqrt, isqrt, lemma_floor_sqrt_bounds, lemma_floor_sqrt_unique, product_le,
    SPEED_PER_LENGTH, WORLD_LIMIT,
};

verus! {

/// The largest distance between two points of the world, rounded up.
pub const DISTANCE_LIMIT: u64 = 3_000_000_000_000_000;

/// A point of the plane, in length sub-units.
#[derive(Clone, Copy, Debug, PartialEq, Eq, Structural)]
pub struct Position {
    pub x: i64,
    pub y: i64,
}

/// `v` brought into `lo ..= hi`.
pub open spec fn clamp(v: int, lo: int, hi: int) -> int {
    if v < lo {
        lo
    } else if v > hi {
        hi
    } else {
        v
    }
}

/// The magnitude of `v`.
pub open spec fn magnitude(v: int) -> nat {
    if v >= 0 {
        v as nat
    } else {
        (-v) as nat
    }
}

/// `v` brought into `lo ..= hi`.
pub fn clamp_to(v: i128, lo: i64, hi: i64) -> (r: i64)
    requires
        lo <= hi,
    ensures
        r == clamp(v as int, lo as int, hi as int),
{
    if v < lo as i128 {
        lo
    } else if v > hi as i128 {
        hi
    } else {
        v as i64
    }
}

/// The magnitude of `v`.
pub fn magnitude_of(v: i128) -> (r: u128)
    requires
        v > i128::MIN,
    ensures
        r == magnitude(v as int),
{
    if v >= 0 {
        v as u128
    } else {
        (-v) as u128
    }
}

impl Position {
    /// Both coordinates lie within the world.
    pub open spec fn in_world(self) -> bool {
        &&& -WORLD_LIMIT <= self.x <= WORLD_LIMIT
        &&& -WORLD_LIMIT <= self.y <= WORLD_LIMIT
    }

    /// The point reached from `self` by `(dx, dy)`, held back at the world's
    /// edge.
    pub open spec fn moved_by(self, dx: int, dy: int) -> Position {
        Position {
            x: clamp(self.x + dx, -WORLD_LIMIT as int, WORLD_LIMIT as int) as i64,
            y: clamp(self.y + dy, -WORLD_LIMIT as int, WORLD_LIMIT as int) as i64,
        }
    }

    /// The point of the world nearest to `(x, y)`.
    pub fn new(x: i64, y: i64) -> (p: Position)
        ensures
            p.in_world(),
            p == (Position { x: 0, y: 0 }).moved_by(x as int, y as int),
    {
        Position {
            x: clamp_to(x as i128, -WORLD_LIMIT, WORLD_LIMIT),
            y: clamp_to(y as i128, -WORLD_LIMIT, WORLD_LIMIT),
        }
    }

    /// Moves by `(dx, dy)`, stopping at the world's edge.
    pub fn translate(self, dx: i64, dy: i64) -> (p: Position)
        ensures
            p.in_world(),
            p == self.moved_by(dx as int, dy as int),
    {
        Position {
            x: clamp_to(self.x as i128 + dx as i128, -WORLD_LIMIT, WORLD_LIMIT),
            y: clamp_to(self.y as i128 + dy as i128, -WORLD_LIMIT, WORLD_LIMIT),
        }
    }
}

/// The squared length of `(dx, dy)`.
pub open spec fn norm_squared(dx: int, dy: int) -> nat {
    (dx * dx + dy * dy) as nat
}

/// The length of `(dx, dy)`, rounded down.
pub open spec fn norm(dx: int, dy: int) -> nat {
    floor_sqrt(norm_squared(dx, dy))
}

/// The squared distance between two points.
pub open spec fn distance_squared(a: Position, b: Position) -> nat {
    norm_squared(a.x - b.x, a.y - b.y)
}

/// The distance between two points, rounded down.
pub open spec fn distance(a: Position, b: Position) -> nat {
    floor_sqrt(distance_squared(a, b))
}

/// Squaring keeps the order of magnitudes.
proof fn lemma_square_bound(a: nat, limit: nat)
    requires
        a <= limit,
    ensures
        a * a <= limit * limit,
{
    assert(a * a <= limit * limit) by (nonlinear_arith)
        requires
            a <= limit,
    ;
}

/// The squared length of `(dx, dy)`.
pub fn norm_squared_of(dx: i64, dy: i64) -> (r: u128)
    ensures
        r == norm_squared(dx as int, dy as int),
{
    let ax: u128 = magnitude_of(dx as i128);
    let ay: u128 = magnitude_of(dy as i128);
    proof {
        lemma_square_bound(ax as nat, 0x8000_0000_0000_0000);
        lemma_square_bound(ay as nat, 0x8000_0000_0000_0000);
        assert(0x8000_0000_0000_0000nat * 0x8000_0000_0000_0000nat
            == 0x4000_0000_0000_0000_0000_0000_0000_0000nat) by (nonlinear_arith);
        assert(ax * ax == dx * dx) by (nonlinear_arith)
            requires
                ax == dx || ax == -dx,
        ;
        assert(ay * ay == dy * dy) by (nonlinear_arith)
            requires
                ay == dy || ay == -dy,
        ;
    }
    ax * ax + ay * ay
}

/// The length of `(dx, dy)`, rounded down.
pub fn norm_of(dx: i64, dy: i64) -> (r: u64)
    ensures
        r == norm(dx as int, dy as int),
{
    isqrt(norm_squared_of(dx, dy))
}

/// Two points of the world are never farther apart than `DISTANCE_LIMIT`.
pub proof fn lemma_distance_in_world(a: Position, b: Position)
    requires
        a.in_world(),
        b.in_world(),
    ensures
        distance(a, b) <= DISTANCE_LIMIT,
{
    let dx = a.x - b.x;
    let dy = a.y - b.y;
    let d = distance(a, b);
    lemma_floor_sqrt_bounds(distance_squared(a, b));
    assert(0 <= dx * dx <= 4_000_000_000_000_000_000_000_000_000_000) by (nonlinear_arith)
        requires
            -2_000_000_000_000_000 <= dx <= 2_000_000_000_000_000,
    ;
    assert(0 <= dy * dy <= 4_000_000_000_000_000_000_000_000_000_000) by (nonlinear_arith)
        requires
            -2_000_000_000_000_000 <= dy <= 2_000_000_000_000_000,
    ;
    assert(d * d <= dx * dx + dy * dy);
    assert(d <= 3_000_000_000_000_000) by (nonlinear_arith)
        requires
            d * d <= 8_000_000_000_000_000_000_000_000_000_000,
    ;
}

/// The distance between two points of the world, rounded down.
pub fn distance_between(a: Position, b: Position) -> (r: u64)
    requires
        a.in_world(),
        b.in_world(),
    ensures
        r == distance(a, b),
        r <= DISTANCE_LIMIT,
{
    proof {
        lemma_distance_in_world(a, b);
    }
    norm_of(a.x - b.x, a.y - b.y)
}

/// Whether two points of the world lie within `radius` of each other, the
/// rim included: a circular test.
pub open spec fn within_radius(a: Position, b: Position, radius: nat) -> bool {
    distance_squared(a, b) <= radius * radius
}

/// Whether two points of the world lie within `radius` of each other.
pub fn is_within_radius(a: Position, b: Position, radius: u32) -> (r: bool)
    requires
        a.in_world(),
        b.in_world(),
    ensures
        r == within_radius(a, b, radius as nat),
{
    let d2: u128 = norm_squared_of(a.x - b.x, a.y - b.y);
    let r: u128 = radius as u128;
    assert(r * r <= 0xFFFF_FFFF_FFFF_FFFF) by (nonlinear_arith)
        requires
            r <= 0xFFFF_FFFF,
    ;
    d2 <= r * r
}

/// Whether `point` lies in the axis-aligned box around `center` with the
/// given half-extents, the border included.
pub open spec fn box_contains(center: Position, half_width: nat, half_height: nat, point: Position) -> bool {
    &&& -half_width <= point.x - center.x <= half_width
    &&& -half_height <= point.y - center.y <= half_height
}

/// Whether `point` lies in the box around `center`, the border included.
pub fn is_in_box(center: Position, half_width: u32, half_height: u32, point: Position) -> (r: bool)
    ensures
        r == box_contains(center, half_width as nat, half_height as nat, point),
{
    let x: i128 = point.x as i128 - center.x as i128;
    let y: i128 = point.y as i128 - center.y as i128;
    x >= -(half_width as i128) && x <= half_width as i128 && y >= -(half_height as i128) && y
        <= half_height as i128
}

/// One coordinate of a step of `speed` along a direction whose same
/// coordinate is `component` and whose squared length is `length_squared`:
/// the exact quotient of `component * speed` by the length of the direction
/// and by the speed sub-units in a length sub-unit, rounded toward zero.
pub open spec fn step_component(component: int, length_squared: nat, speed: nat) -> int {
    let reach = magnitude(component) as int * speed as int;
    let scale = SPEED_PER_LENGTH as int * SPEED_PER_LENGTH as int * length_squared as int;
    let size = floor_sqrt(((reach * reach) / scale) as nat) as int;
    if component >= 0 {
        size
    } else {
        -size
    }
}

/// The displacement of one tick at `speed` along `(dx, dy)`: as long as the
/// speed allows, whatever the length of `(dx, dy)`; none along the zero
/// direction.
pub open spec fn step(dx: int, dy: int, speed: nat) -> (int, int) {
    let length_squared = norm_squared(dx, dy);
    if length_squared == 0 {
        (0, 0)
    } else {
        (step_component(dx, length_squared, speed), step_component(dy, length_squared, speed))
    }
}

/// Whether `size` is the exact quotient of `reach` by a hundred times the
/// root of `length_squared`, rounded down: a hundred times `size` times the
/// root is at most `reach`, and with `size + 1` in its place it is more.
pub open spec fn is_exact_quotient(size: int, reach: int, length_squared: int) -> bool {
    &&& size >= 0
    &&& (100 * size) * (100 * size) * length_squared <= reach * reach
    &&& reach * reach < (100 * (size + 1)) * (100 * (size + 1)) * length_squared
}

/// A coordinate of a step is the exact quotient, rounded toward zero.
pub proof fn lemma_step_component_exact(component: int, length_squared: nat, speed: nat)
    requires
        length_squared > 0,
    ensures
        is_exact_quotient(
            magnitude(step_component(component, length_squared, speed)) as int,
            magnitude(component) as int * speed as int,
            length_squared as int,
        ),
        component >= 0 ==> step_component(component, length_squared, speed) >= 0,
        component <= 0 ==> step_component(component, length_squared, speed) <= 0,
{
    let reach = magnitude(component) as int * speed as int;
    let square = reach * reach;
    let scale = 10_000 * length_squared as int;
    assert(SPEED_PER_LENGTH as int * SPEED_PER_LENGTH as int * length_squared as int == scale);
    assert(square >= 0) by (nonlinear_arith)
        requires
            square == reach * reach,
    ;
    let whole = square / scale;
    assert(0 <= whole && whole * scale <= square < (whole + 1) * scale) by (nonlinear_arith)
        requires
            whole == square / scale,
            scale > 0,
            square >= 0,
    ;
    let size = floor_sqrt(whole as nat) as int;
    lemma_floor_sqrt_bounds(whole as nat);
    if component == 0 {
        assert(square == 0) by (nonlinear_arith)
            requires
                square == reach * reach,
                reach == 0 * speed,
        ;
        assert(whole == 0);
    }
    assert((100 * size) * (100 * size) * length_squared <= square) by (nonlinear_arith)
        requires
            size * size <= whole,
            whole * scale <= square,
            scale == 10_000 * length_squared,
            length_squared > 0,
    ;
    assert(square < (100 * (size + 1)) * (100 * (size + 1)) * length_squared) by (nonlinear_arith)
        requires
            whole + 1 <= (size + 1) * (size + 1),
            square < (whole + 1) * scale,
            scale == 10_000 * length_squared,
            length_squared > 0,
    ;
}

/// There is one exact quotient only: any `size` that is one is the size of
/// the step's coordinate.
pub proof fn lemma_step_component_unique(component: int, length_squared: nat, speed: nat, size: int)
    requires
        length_squared > 0,
        is_exact_quotient(size, magnitude(component) as int * speed as int, length_squared as int),
    ensures
        magnitude(step_component(component, length_squared, speed)) == size,
        step_component(component, length_squared, speed) == if component >= 0 {
            size
        } else {
            -size
        },
{
    let reach = magnitude(component) as int * speed as int;
    let square = reach * reach;
    let scale = 10_000 * length_squared as int;
    assert(SPEED_PER_LENGTH as int * SPEED_PER_LENGTH as int * length_squared as int == scale);
    assert(square >= 0) by (nonlinear_arith)
        requires
            square == reach * reach,
    ;
    let whole = square / scale;
    assert(0 <= whole && whole * scale <= square < (whole + 1) * scale) by (nonlinear_arith)
        requires
            whole == square / scale,
            scale > 0,
            square >= 0,
    ;
    assert(size * size <= whole) by (nonlinear_arith)
        requires
            (100 * size) * (100 * size) * length_squared <= square,
            square < (whole + 1) * scale,
            scale == 10_000 * length_squared,
            length_squared > 0,
    ;
    assert(whole < (size + 1) * (size + 1)) by (nonlinear_arith)
        requires
            square < (100 * (size + 1)) * (100 * (size + 1)) * length_squared,
            whole * scale <= square,
            scale == 10_000 * length_squared,
            length_squared > 0,
    ;
    lemma_floor_sqrt_unique(whole as nat, size as nat);
}

/// A step is never longer, along either axis, than the speed allows, and
/// it points the way the direction does.
pub proof fn lemma_step_bounded(dx: int, dy: int, speed: nat)
    ensures
        magnitude(step(dx, dy, speed).0) <= speed as int / SPEED_PER_LENGTH as int,
        magnitude(step(dx, dy, speed).1) <= speed as int / SPEED_PER_LENGTH as int,
        dx >= 0 ==> step(dx, dy, speed).0 >= 0,
        dx <= 0 ==> step(dx, dy, speed).0 <= 0,
        dy >= 0 ==> step(dx, dy, speed).1 >= 0,
        dy <= 0 ==> step(dx, dy, speed).1 <= 0,
{
    let n2 = norm_squared(dx, dy);
    if n2 > 0 {
        lemma_step_length(dx, dy, speed);
        let sx = magnitude(step(dx, dy, speed).0) as int;
        let sy = magnitude(step(dx, dy, speed).1) as int;
        let s = speed as int;
        lemma_step_component_exact(dx, n2, speed);
        lemma_step_component_exact(dy, n2, speed);
        let stride = step(dx, dy, speed);
        assert(squared_length(stride) == sx * sx + sy * sy) by (nonlinear_arith)
            requires
                squared_length(stride) == stride.0 * stride.0 + stride.1 * stride.1,
                sx == stride.0 || sx == -stride.0,
                sy == stride.1 || sy == -stride.1,
        ;
        assert(speed * speed == s * s);
        assert(100 * sx <= s && 100 * sy <= s) by (nonlinear_arith)
            requires
                10_000 * (sx * sx + sy * sy) <= s * s,
                sx >= 0,
                sy >= 0,
                s >= 0,
        ;
    }
}

/// The squared length of a displacement.
pub open spec fn squared_length(stride: (int, int)) -> int {
    stride.0 * stride.0 + stride.1 * stride.1
}

/// A step is no longer than the speed allows: its squared length is at
/// most the square of the speed, taken in length sub-units per tick.
pub proof fn lemma_step_length(dx: int, dy: int, speed: nat)
    ensures
        SPEED_PER_LENGTH * SPEED_PER_LENGTH * squared_length(step(dx, dy, speed)) <= speed * speed,
{
    let n2 = norm_squared(dx, dy) as int;
    let s = speed as int;
    assert(speed * speed == s * s);
    if n2 > 0 {
        let ax = magnitude(dx) as int;
        let ay = magnitude(dy) as int;
        let stride = step(dx, dy, speed);
        let sx = magnitude(stride.0) as int;
        let sy = magnitude(stride.1) as int;
        lemma_step_component_exact(dx, n2 as nat, speed);
        lemma_step_component_exact(dy, n2 as nat, speed);
        assert(ax * ax == dx * dx && ay * ay == dy * dy) by (nonlinear_arith)
            requires
                ax == dx || ax == -dx,
                ay == dy || ay == -dy,
        ;
        assert(dx * dx >= 0 && dy * dy >= 0) by (nonlinear_arith);
        let p = sx * sx;
        let q = sy * sy;
        let t = s * s;
        let a2 = ax * ax;
        let b2 = ay * ay;
        assert(a2 + b2 == n2);
        assert(10_000 * p * n2 <= a2 * t) by (nonlinear_arith)
            requires
                (100 * sx) * (100 * sx) * n2 <= (ax * s) * (ax * s),
                p == sx * sx,
                t == s * s,
                a2 == ax * ax,
        ;
        assert(10_000 * q * n2 <= b2 * t) by (nonlinear_arith)
            requires
                (100 * sy) * (100 * sy) * n2 <= (ay * s) * (ay * s),
                q == sy * sy,
                t == s * s,
                b2 == ay * ay,
        ;
        assert((10_000 * (p + q)) * n2 <= t * n2) by (nonlinear_arith)
            requires
                10_000 * p * n2 <= a2 * t,
                10_000 * q * n2 <= b2 * t,
                a2 + b2 == n2,
        ;
        assert(10_000 * (p + q) <= t) by (nonlinear_arith)
            requires
                (10_000 * (p + q)) * n2 <= t * n2,
                n2 > 0,
        ;
        assert(stride.0 * stride.0 == p && stride.1 * stride.1 == q) by (nonlinear_arith)
            requires
                p == sx * sx,
                q == sy * sy,
                sx == stride.0 || sx == -stride.0,
                sy == stride.1 || sy == -stride.1,
        ;
        assert(squared_length(stride) == p + q);
    } else {
        assert(s * s >= 0) by (nonlinear_arith);
        assert(squared_length((0int, 0int)) == 0) by (nonlinear_arith);
    }
}

/// Only the direction counts: a direction stretched by any factor gives
/// the same step.
pub proof fn lemma_step_is_scale_free(dx: int, dy: int, factor: int, speed: nat)
    requires
        factor > 0,
    ensures
        step(factor * dx, factor * dy, speed) == step(dx, dy, speed),
{
    let n2 = norm_squared(dx, dy) as int;
    let f2 = factor * factor;
    assert(dx * dx >= 0 && dy * dy >= 0 && f2 > 0) by (nonlinear_arith)
        requires
            f2 == factor * factor,
            factor > 0,
    ;
    assert((factor * dx) * (factor * dx) + (factor * dy) * (factor * dy) == f2 * n2)
        by (nonlinear_arith)
        requires
            n2 == dx * dx + dy * dy,
            f2 == factor * factor,
    ;
    let stretched = norm_squared(factor * dx, factor * dy) as int;
    assert(stretched == f2 * n2);
    if n2 == 0 {
        assert(stretched == 0) by (nonlinear_arith)
            requires
                stretched == f2 * n2,
                n2 == 0,
        ;
    } else {
        assert(stretched > 0) by (nonlinear_arith)
            requires
                stretched == f2 * n2,
                n2 > 0,
                f2 > 0,
        ;
        lemma_component_is_scale_free(dx, n2, factor, speed);
        lemma_component_is_scale_free(dy, n2, factor, speed);
    }
}

/// One coordinate of a step is the same for a direction stretched by any
/// factor.
proof fn lemma_component_is_scale_free(component: int, length_squared: int, factor: int, speed: nat)
    requires
        factor > 0,
        length_squared > 0,
    ensures
        step_component(
            factor * component,
            (factor * factor * length_squared) as nat,
            speed,
        ) == step_component(component, length_squared as nat, speed),
{
    let size = magnitude(step_component(component, length_squared as nat, speed)) as int;
    let reach = magnitude(component) as int * speed as int;
    let far = magnitude(factor * component) as int * speed as int;
    let f2 = factor * factor;
    lemma_step_component_exact(component, length_squared as nat, speed);
    assert(magnitude(factor * component) == factor * magnitude(component)) by (nonlinear_arith)
        requires
            factor > 0,
    ;
    assert(far * far == f2 * (reach * reach)) by (nonlinear_arith)
        requires
            far == factor * magnitude(component) * speed,
            reach == magnitude(component) * speed,
            f2 == factor * factor,
    ;
    assert(f2 > 0 && f2 * length_squared > 0) by (nonlinear_arith)
        requires
            f2 == factor * factor,
            factor > 0,
            length_squared > 0,
    ;
    let low = (100 * size) * (100 * size);
    let high = (100 * (size + 1)) * (100 * (size + 1));
    assert(low * (f2 * length_squared) <= far * far) by (nonlinear_arith)
        requires
            low * length_squared <= reach * reach,
            far * far == f2 * (reach * reach),
            f2 > 0,
    ;
    assert(far * far < high * (f2 * length_squared)) by (nonlinear_arith)
        requires
            reach * reach < high * length_squared,
            far * far == f2 * (reach * reach),
            f2 > 0,
    ;
    assert(f2 * length_squared == factor * factor * length_squared);
    lemma_step_component_unique(
        factor * component,
        (factor * factor * length_squared) as nat,
        speed,
        size,
    );
    assert((factor * component >= 0) == (component >= 0) || component == 0) by (nonlinear_arith)
        requires
            factor > 0,
    ;
    if component == 0 {
        assert(factor * component == 0);
    }
}

/// One coordinate of a step, found by halving the range it can lie in.
fn step_component_of(component: i64, length_squared: u128, speed: u64) -> (r: i64)
    requires
        length_squared > 0,
        component * component <= length_squared,
    ensures
        r == step_component(component as int, length_squared as nat, speed as nat),
{
    let a: u128 = magnitude_of(component as i128);
    let s: u128 = speed as u128;
    proof {
        assert(0 <= a * s <= 0x8000_0000_0000_0000 * 0xFFFF_FFFF_FFFF_FFFF) by (nonlinear_arith)
            requires
                0 <= a <= 0x8000_0000_0000_0000,
                0 <= s <= 0xFFFF_FFFF_FFFF_FFFF,
        ;
    }
    let reach: u128 = a * s;
    let mut low: u128 = 0;
    let mut high: u128 = s / 100 + 1;
    proof {
        let top = high as int;
        assert(a * a == component * component) by (nonlinear_arith)
            requires
                a == component || a == -component,
        ;
        assert(reach * reach < (100 * top) * (100 * top) * length_squared) by (nonlinear_arith)
            requires
                reach == a * s,
                100 * top > s,
                s >= 0,
                a >= 0,
                a * a <= length_squared,
                length_squared > 0,
        ;
        assert((100 * 0) * (100 * 0) * length_squared <= reach * reach) by (nonlinear_arith);
    }
    while high - low > 1
        invariant
            low < high <= s / 100 + 1,
            s <= 0xFFFF_FFFF_FFFF_FFFF,
            (100 * low) * (100 * low) * length_squared <= reach * reach,
            reach * reach < (100 * high) * (100 * high) * length_squared,
        decreases high - low,
    {
        let mid: u128 = low + (high - low) / 2;
        let hundredfold: u128 = 100 * mid;
        proof {
            assert(hundredfold * hundredfold <= 0xFFFF_FFFF_FFFF_FFFF * 0xFFFF_FFFF_FFFF_FFFF)
                by (nonlinear_arith)
                requires
                    0 <= hundredfold <= 0xFFFF_FFFF_FFFF_FFFF,
            ;
        }
        if product_le(hundredfold * hundredfold, length_squared, reach, reach) {
            low = mid;
        } else {
            high = mid;
        }
    }
    proof {
        lemma_step_component_unique(
            component as int,
            length_squared as nat,
            speed as nat,
            low as int,
        );
    }
    if component >= 0 {
        low as i64
    } else {
        -(low as i64)
    }
}

/// The displacement of one tick at `speed` along `(dx, dy)`.
pub fn step_along(dx: i64, dy: i64, speed: u64) -> (r: (i64, i64))
    ensures
        r.0 == step(dx as int, dy as int, speed as nat).0,
        r.1 == step(dx as int, dy as int, speed as nat).1,
        magnitude(r.0 as int) <= speed / SPEED_PER_LENGTH,
        magnitude(r.1 as int) <= speed / SPEED_PER_LENGTH,
{
    let length_squared: u128 = norm_squared_of(dx, dy);
    proof {
        lemma_step_bounded(dx as int, dy as int, speed as nat);
    }
    if length_squared == 0 {
        (0, 0)
    } else {
        proof {
            assert(dx * dx >= 0 && dy * dy >= 0) by (nonlinear_arith);
        }
        (
            step_component_of(dx, length_squared, speed),
            step_component_of(dy, length_squared, speed),
        )
    }
}

} // verus!
