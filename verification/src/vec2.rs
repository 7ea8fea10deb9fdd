//! Fixed-point 2D vectors and the movement primitives shared by the entity
//! controllers: stepping a vector toward a target by a bounded amount,
//! normalizing a direction, and uniform scaling.
//!
//! One world unit (and one second) is `SCALE` subunits; every coordinate is
//! an `i64` count of subunits, kept within `MAX_COORD` so that all the
//! products formed here fit comfortably in the machine integers.

use vstd::arithmetic::div_mod::{
    lemma_div_by_self, lemma_div_is_ordered, lemma_div_multiples_vanish, lemma_div_nonincreasing,
    lemma_div_of0, lemma_div_pos_is_pos,
};
use vstd::math::abs;
use vstd::prelude::*;

verus! {

/// Subunits in one world unit and in one second of frame time.
pub const SCALE: i64 = 1000;

/// Largest coordinate magnitude a well-formed vector may hold.
pub const MAX_COORD: i64 = 1_000_000;

/// Largest frame delta accepted, in subunits of a second (two full seconds);
/// keeps every per-frame step within `MAX_COORD`.
pub const MAX_DELTA: i64 = 2000;

/// A 2D vector in fixed-point subunits. The y axis points down, as the host
/// engine's does.
#[derive(Clone, Copy, PartialEq, Eq, Structural, Debug)]
pub struct Vec2 {
    pub x: i64,
    pub y: i64,
}

/// Quotient of `a` by a positive `b`, rounded toward zero.
pub open spec fn div_towards_zero(a: int, b: int) -> int {
    if a >= 0 {
        a / b
    } else {
        -((-a) / b)
    }
}

/// `r` is the floor of the square root of `n`.
pub open spec fn is_sqrt_floor(n: int, r: int) -> bool {
    &&& 0 <= r
    &&& r * r <= n
    &&& n < (r + 1) * (r + 1)
}

/// The floor of the square root of a nonnegative `n`.
pub open spec fn sqrt_floor(n: int) -> int {
    choose|r: int| is_sqrt_floor(n, r)
}

impl Vec2 {
    /// Both coordinates within `MAX_COORD`.
    pub open spec fn wf(self) -> bool {
        &&& -MAX_COORD <= self.x <= MAX_COORD
        &&& -MAX_COORD <= self.y <= MAX_COORD
    }

    /// Squared Euclidean length.
    pub open spec fn norm2(self) -> int {
        self.x * self.x + self.y * self.y
    }

    /// The zero vector.
    pub fn zero() -> (r: Vec2)
        ensures
            r.x == 0,
            r.y == 0,
    {
        Vec2 { x: 0, y: 0 }
    }

    /// One unit straight down.
    pub fn down() -> (r: Vec2)
        ensures
            r.x == 0,
            r.y == SCALE,
    {
        Vec2 { x: 0, y: SCALE }
    }

    /// Step toward `target` by at most `step` subunits.
    pub fn move_towards(self, target: Vec2, step: i64) -> (r: Vec2)
        requires
            self.wf(),
            target.wf(),
            0 <= step <= MAX_COORD,
        ensures
            r.wf(),
            (r.x as int, r.y as int) == spec_move_towards(
                self.x as int,
                self.y as int,
                target.x as int,
                target.y as int,
                step as int,
            ),
    {
        let dx: i64 = target.x - self.x;
        let dy: i64 = target.y - self.y;
        proof {
            assert(0 <= dx * dx <= 4_000_000_000_000 && 0 <= dy * dy
                <= 4_000_000_000_000) by (nonlinear_arith)
                requires
                    -2_000_000 <= dx <= 2_000_000,
                    -2_000_000 <= dy <= 2_000_000,
            ;
            assert(0 <= step * step <= 1_000_000_000_000) by (nonlinear_arith)
                requires
                    0 <= step <= 1_000_000i64,
            ;
        }
        let d2: i64 = dx * dx + dy * dy;
        if d2 <= step * step {
            target
        } else {
            let dist: u64 = isqrt(d2 as u64);
            proof {
                assert(1 <= dist && step <= dist && dist <= 3_000_000) by (nonlinear_arith)
                    requires
                        0 <= step,
                        step * step < d2,
                        d2 <= 8_000_000_000_000i64,
                        0 <= dist,
                        dist * dist <= d2,
                        d2 < (dist + 1) * (dist + 1),
                ;
                assert(-0x4000_0000_0000_0000 <= dx * step <= 0x4000_0000_0000_0000
                    && -0x4000_0000_0000_0000 <= dy * step
                    <= 0x4000_0000_0000_0000) by (nonlinear_arith)
                    requires
                        -2_000_000 <= dx <= 2_000_000,
                        -2_000_000 <= dy <= 2_000_000,
                        0 <= step <= 1_000_000i64,
                ;
                lemma_div_towards_zero_bounds(dx as int, step as int, dist as int);
                lemma_div_towards_zero_bounds(dy as int, step as int, dist as int);
            }
            let mx: i64 = div_trunc(dx * step, dist as i64);
            let my: i64 = div_trunc(dy * step, dist as i64);
            Vec2 { x: self.x + mx, y: self.y + my }
        }
    }

    /// Rescale to length `SCALE` (one world unit), or keep the zero vector.
    pub fn normalized(self) -> (r: Vec2)
        requires
            self.wf(),
        ensures
            r.wf(),
            -SCALE <= r.x <= SCALE,
            -SCALE <= r.y <= SCALE,
            (r.x as int, r.y as int) == spec_normalized(self.x as int, self.y as int),
    {
        if self.x == 0 && self.y == 0 {
            self
        } else {
            proof {
                assert(0 <= self.x * self.x <= 1_000_000_000_000 && 0 <= self.y * self.y
                    <= 1_000_000_000_000) by (nonlinear_arith)
                    requires
                        -1_000_000 <= self.x <= 1_000_000,
                        -1_000_000 <= self.y <= 1_000_000,
                ;
            }
            let n2: i64 = self.x * self.x + self.y * self.y;
            let len: u64 = isqrt(n2 as u64);
            proof {
                assert(1 <= len && len <= 3_000_000 && -(len as int) <= self.x <= len as int
                    && -(len as int) <= self.y <= len as int) by (nonlinear_arith)
                    requires
                        !(self.x == 0 && self.y == 0),
                        n2 == self.x * self.x + self.y * self.y,
                        n2 <= 2_000_000_000_000i64,
                        0 <= len,
                        len * len <= n2,
                        n2 < (len + 1) * (len + 1),
                ;
                lemma_div_towards_zero_bounds(self.x as int, SCALE as int, len as int);
                lemma_div_towards_zero_bounds(self.y as int, SCALE as int, len as int);
            }
            let rx: i64 = div_trunc(self.x * SCALE, len as i64);
            let ry: i64 = div_trunc(self.y * SCALE, len as i64);
            Vec2 { x: rx, y: ry }
        }
    }

    /// Multiply both coordinates by `k`.
    pub fn scaled(self, k: i64) -> (r: Vec2)
        requires
            -MAX_COORD <= self.x * k <= MAX_COORD,
            -MAX_COORD <= self.y * k <= MAX_COORD,
        ensures
            r.wf(),
            r.x == self.x * k,
            r.y == self.y * k,
    {
        Vec2 { x: self.x * k, y: self.y * k }
    }

    /// Multiply both coordinates by `num / den`, a fraction of at most one,
    /// rounding toward zero.
    pub fn scaled_frac(self, num: i64, den: i64) -> (r: Vec2)
        requires
            self.wf(),
            0 <= num <= den,
            1 <= den <= SCALE,
        ensures
            r.wf(),
            r.x == div_towards_zero(self.x * num, den as int),
            r.y == div_towards_zero(self.y * num, den as int),
    {
        proof {
            assert(-1_000_000_000 <= self.x * num <= 1_000_000_000 && -1_000_000_000
                <= self.y * num <= 1_000_000_000) by (nonlinear_arith)
                requires
                    -1_000_000 <= self.x <= 1_000_000,
                    -1_000_000 <= self.y <= 1_000_000,
                    0 <= num <= 1000i64,
            ;
            lemma_div_towards_zero_bounds(self.x as int, num as int, den as int);
            lemma_div_towards_zero_bounds(self.y as int, num as int, den as int);
        }
        Vec2 { x: div_trunc(self.x * num, den), y: div_trunc(self.y * num, den) }
    }
}

impl Default for Vec2 {
    /// The zero vector.
    fn default() -> (r: Vec2)
        ensures
            r.x == 0,
            r.y == 0,
    {
        Vec2 { x: 0, y: 0 }
    }
}

proof fn lemma_sqrt_floor_witness(n: nat) -> (r: int)
    ensures
        is_sqrt_floor(n as int, r),
    decreases n,
{
    if n == 0 {
        assert(is_sqrt_floor(0, 0));
        0
    } else {
        let s = lemma_sqrt_floor_witness((n - 1) as nat);
        if (s + 1) * (s + 1) <= n {
            assert(n < (s + 2) * (s + 2)) by (nonlinear_arith)
                requires
                    0 <= s,
                    n - 1 < (s + 1) * (s + 1),
            ;
            s + 1
        } else {
            s
        }
    }
}

/// The floor square root is unique, so any witness pins `sqrt_floor` down.
pub proof fn lemma_sqrt_floor_is(n: int, r: int)
    requires
        is_sqrt_floor(n, r),
    ensures
        sqrt_floor(n) == r,
{
    let r2 = sqrt_floor(n);
    assert(is_sqrt_floor(n, r2));
    assert(r2 == r) by (nonlinear_arith)
        requires
            0 <= r,
            r * r <= n,
            n < (r + 1) * (r + 1),
            0 <= r2,
            r2 * r2 <= n,
            n < (r2 + 1) * (r2 + 1),
    ;
}

/// Every nonnegative `n` has a floor square root.
pub proof fn lemma_sqrt_floor_exists(n: int)
    requires
        0 <= n,
    ensures
        is_sqrt_floor(n, sqrt_floor(n)),
{
    let w = lemma_sqrt_floor_witness(n as nat);
    lemma_sqrt_floor_is(n, w);
}

/// Bounds on `a * k` divided by `den`, rounding toward zero: the quotient
/// keeps the sign of `a`, never exceeds `a` in magnitude when `k <= den`,
/// and never exceeds `k` in magnitude when `|a| <= den`.
pub proof fn lemma_div_towards_zero_bounds(a: int, k: int, den: int)
    requires
        0 <= k,
        1 <= den,
    ensures
        0 <= a ==> 0 <= div_towards_zero(a * k, den),
        a < 0 ==> div_towards_zero(a * k, den) <= 0,
        0 <= a && k <= den ==> div_towards_zero(a * k, den) <= a,
        a < 0 && k <= den ==> a <= div_towards_zero(a * k, den),
        0 <= a <= den ==> div_towards_zero(a * k, den) <= k,
        -den <= a < 0 ==> -k <= div_towards_zero(a * k, den),
{
    if 0 <= a {
        lemma_div_nonneg_case(a, k, den);
    } else {
        lemma_div_nonneg_case(-a, k, den);
        assert((-a) * k == -(a * k)) by (nonlinear_arith);
        assert(a * k <= 0) by (nonlinear_arith)
            requires
                a < 0,
                0 <= k,
        ;
        if a * k == 0 {
            assert(div_towards_zero(a * k, den) == 0int / den);
            lemma_div_pos_is_pos(0, den);
            lemma_div_nonincreasing(0, den);
        } else {
            assert(div_towards_zero(a * k, den) == -div_towards_zero((-a) * k, den));
        }
    }
}

proof fn lemma_div_nonneg_case(a: int, k: int, den: int)
    requires
        0 <= a,
        0 <= k,
        1 <= den,
    ensures
        0 <= div_towards_zero(a * k, den),
        k <= den ==> div_towards_zero(a * k, den) <= a,
        a <= den ==> div_towards_zero(a * k, den) <= k,
{
    assert(0 <= a * k) by (nonlinear_arith)
        requires
            0 <= a,
            0 <= k,
    ;
    lemma_div_pos_is_pos(a * k, den);
    if k <= den {
        assert(a * k <= den * a) by (nonlinear_arith)
            requires
                0 <= a,
                k <= den,
        ;
        lemma_div_is_ordered(a * k, den * a, den);
        lemma_div_multiples_vanish(a, den);
    }
    if a <= den {
        assert(a * k <= den * k) by (nonlinear_arith)
            requires
                0 <= k,
                a <= den,
        ;
        lemma_div_is_ordered(a * k, den * k, den);
        lemma_div_multiples_vanish(k, den);
    }
}

/// Stepping toward the origin never increases the squared length, and lands
/// exactly on the origin once the squared length is within the step's square.
pub proof fn lemma_move_towards_origin_shrinks(vx: int, vy: int, step: int)
    requires
        0 <= step,
    ensures
        ({
            let (rx, ry) = spec_move_towards(vx, vy, 0, 0, step);
            &&& rx * rx + ry * ry <= vx * vx + vy * vy
            &&& (vx * vx + vy * vy <= step * step ==> rx == 0 && ry == 0)
            &&& (0 <= rx <= vx) || (vx <= rx <= 0)
            &&& (0 <= ry <= vy) || (vy <= ry <= 0)
        }),
{
    let d2 = vx * vx + vy * vy;
    assert(0 <= vx * vx && 0 <= vy * vy && (0 - vx) * (0 - vx) == vx * vx && (0 - vy) * (0 - vy)
        == vy * vy) by (nonlinear_arith);
    if d2 <= step * step {
        let (rx, ry) = spec_move_towards(vx, vy, 0, 0, step);
        assert(rx == 0 && ry == 0);
        assert(rx * rx + ry * ry == 0);
    } else {
        lemma_sqrt_floor_exists(d2);
        let dist = sqrt_floor(d2);
        assert(1 <= dist && step <= dist) by (nonlinear_arith)
            requires
                0 <= step,
                step * step < d2,
                0 <= dist,
                dist * dist <= d2,
                d2 < (dist + 1) * (dist + 1),
        ;
        lemma_div_towards_zero_bounds(-vx, step, dist);
        lemma_div_towards_zero_bounds(-vy, step, dist);
        assert((0 - vx) * step == (-vx) * step && (0 - vy) * step == (-vy)
            * step) by (nonlinear_arith);
        let (rx, ry) = spec_move_towards(vx, vy, 0, 0, step);
        assert(rx == vx + div_towards_zero((0 - vx) * step, dist));
        assert(ry == vy + div_towards_zero((0 - vy) * step, dist));
        assert((0 <= rx <= vx) || (vx <= rx <= 0));
        assert((0 <= ry <= vy) || (vy <= ry <= 0));
        assert(rx * rx <= vx * vx) by (nonlinear_arith)
            requires
                (0 <= rx <= vx) || (vx <= rx <= 0),
        ;
        assert(ry * ry <= vy * vy) by (nonlinear_arith)
            requires
                (0 <= ry <= vy) || (vy <= ry <= 0),
        ;
    }
    let (rx, ry) = spec_move_towards(vx, vy, 0, 0, step);
    assert(rx * rx + ry * ry <= vx * vx + vy * vy);
    assert(vx * vx + vy * vy <= step * step ==> rx == 0 && ry == 0);
    assert((0 <= rx <= vx) || (vx <= rx <= 0));
    assert((0 <= ry <= vy) || (vy <= ry <= 0));
}

/// Stepping toward any target never increases the squared distance to it,
/// and each coordinate stays between where it was and the target's.
pub proof fn lemma_move_towards_closes_in(vx: int, vy: int, tx: int, ty: int, step: int)
    requires
        0 <= step,
    ensures
        ({
            let (rx, ry) = spec_move_towards(vx, vy, tx, ty, step);
            &&& (tx - rx) * (tx - rx) + (ty - ry) * (ty - ry) <= (tx - vx) * (tx - vx) + (ty - vy)
                * (ty - vy)
            &&& (vx <= rx <= tx) || (tx <= rx <= vx)
            &&& (vy <= ry <= ty) || (ty <= ry <= vy)
        }),
{
    let dx = tx - vx;
    let dy = ty - vy;
    let d2 = dx * dx + dy * dy;
    assert(0 <= dx * dx && 0 <= dy * dy) by (nonlinear_arith);
    let (rx, ry) = spec_move_towards(vx, vy, tx, ty, step);
    if d2 <= step * step {
        assert(rx == tx && ry == ty);
        assert((tx - rx) * (tx - rx) + (ty - ry) * (ty - ry) == 0);
    } else {
        lemma_sqrt_floor_exists(d2);
        let dist = sqrt_floor(d2);
        assert(1 <= dist && step <= dist) by (nonlinear_arith)
            requires
                0 <= step,
                step * step < d2,
                0 <= dist,
                dist * dist <= d2,
                d2 < (dist + 1) * (dist + 1),
        ;
        lemma_div_towards_zero_bounds(dx, step, dist);
        lemma_div_towards_zero_bounds(dy, step, dist);
        assert(rx == vx + div_towards_zero(dx * step, dist));
        assert(ry == vy + div_towards_zero(dy * step, dist));
        assert((vx <= rx <= tx) || (tx <= rx <= vx));
        assert((vy <= ry <= ty) || (ty <= ry <= vy));
        assert((tx - rx) * (tx - rx) <= (tx - vx) * (tx - vx)) by (nonlinear_arith)
            requires
                (vx <= rx <= tx) || (tx <= rx <= vx),
        ;
        assert((ty - ry) * (ty - ry) <= (ty - vy) * (ty - vy)) by (nonlinear_arith)
            requires
                (vy <= ry <= ty) || (ty <= ry <= vy),
        ;
    }
}

proof fn lemma_dominant_component_shrinks(v: int, step: int, dist: int)
    requires
        v != 0,
        2 <= step,
        step <= dist,
        dist < 2 * abs(v),
    ensures
        ({
            let r = v + div_towards_zero((0 - v) * step, dist);
            r * r < v * v
        }),
{
    lemma_div_towards_zero_bounds(-v, step, dist);
    assert((0 - v) * step == (-v) * step) by (nonlinear_arith);
    let r = v + div_towards_zero((0 - v) * step, dist);
    if v > 0 {
        assert((-v) * step == -(v * step) && 2 * v <= v * step) by (nonlinear_arith)
            requires
                v > 0,
                2 <= step,
        ;
        let q = (v * step) / dist;
        lemma_div_is_ordered(dist, v * step, dist);
        lemma_div_by_self(dist);
        assert(div_towards_zero((-v) * step, dist) == -q);
        assert(0 <= r <= v - 1);
        assert(r * r < v * v) by (nonlinear_arith)
            requires
                0 <= r <= v - 1,
                1 <= v,
        ;
    } else {
        assert(2 * (-v) <= (-v) * step) by (nonlinear_arith)
            requires
                v < 0,
                2 <= step,
        ;
        let q = ((-v) * step) / dist;
        lemma_div_is_ordered(dist, (-v) * step, dist);
        lemma_div_by_self(dist);
        assert(div_towards_zero((-v) * step, dist) == q);
        assert(v + 1 <= r <= 0);
        assert(r * r < v * v) by (nonlinear_arith)
            requires
                v + 1 <= r <= 0,
                v <= -1,
        ;
    }
}

/// A step of at least two subunits toward the origin strictly shrinks the
/// squared length of a nonzero vector; smaller steps can stall on integer
/// truncation.
pub proof fn lemma_move_towards_origin_strictly_shrinks(vx: int, vy: int, step: int)
    requires
        2 <= step,
        !(vx == 0 && vy == 0),
    ensures
        ({
            let (rx, ry) = spec_move_towards(vx, vy, 0, 0, step);
            rx * rx + ry * ry < vx * vx + vy * vy
        }),
{
    lemma_move_towards_origin_shrinks(vx, vy, step);
    let d2 = vx * vx + vy * vy;
    assert((0 - vx) * (0 - vx) == vx * vx && (0 - vy) * (0 - vy) == vy * vy) by (nonlinear_arith);
    assert(1 <= d2) by (nonlinear_arith)
        requires
            d2 == vx * vx + vy * vy,
            !(vx == 0 && vy == 0),
    ;
    if d2 <= step * step {
        let (rx, ry) = spec_move_towards(vx, vy, 0, 0, step);
        assert(rx == 0 && ry == 0);
        assert(rx * rx + ry * ry == 0);
    } else {
        lemma_sqrt_floor_exists(d2);
        let dist = sqrt_floor(d2);
        assert(step <= dist) by (nonlinear_arith)
            requires
                0 <= step,
                step * step < d2,
                0 <= dist,
                dist * dist <= d2,
                d2 < (dist + 1) * (dist + 1),
        ;
        let (rx, ry) = spec_move_towards(vx, vy, 0, 0, step);
        if abs(vx) >= abs(vy) {
            assert(vx != 0);
            assert(dist < 2 * abs(vx)) by (nonlinear_arith)
                requires
                    dist * dist <= vx * vx + vy * vy,
                    abs(vy) <= abs(vx),
                    abs(vx) == if vx >= 0 { vx } else { -vx },
                    abs(vy) == if vy >= 0 { vy } else { -vy },
                    0 <= dist,
                    vx != 0,
            ;
            lemma_dominant_component_shrinks(vx, step, dist);
            assert(ry * ry <= vy * vy) by (nonlinear_arith)
                requires
                    (0 <= ry <= vy) || (vy <= ry <= 0),
            ;
        } else {
            assert(vy != 0);
            assert(dist < 2 * abs(vy)) by (nonlinear_arith)
                requires
                    dist * dist <= vx * vx + vy * vy,
                    abs(vx) <= abs(vy),
                    abs(vx) == if vx >= 0 { vx } else { -vx },
                    abs(vy) == if vy >= 0 { vy } else { -vy },
                    0 <= dist,
                    vy != 0,
            ;
            lemma_dominant_component_shrinks(vy, step, dist);
            assert(rx * rx <= vx * vx) by (nonlinear_arith)
                requires
                    (0 <= rx <= vx) || (vx <= rx <= 0),
            ;
        }
    }
}

/// Stepping toward a target that differs only along the x axis keeps the y
/// coordinate and closes the x gap by exactly `step`, until the gap is within
/// `step` and the target is reached.
pub proof fn lemma_move_towards_on_axis_x(vx: int, tx: int, y: int, step: int)
    requires
        0 <= step,
    ensures
        ({
            let (rx, ry) = spec_move_towards(vx, y, tx, y, step);
            &&& ry == y
            &&& (abs(tx - vx) <= step ==> rx == tx)
            &&& (abs(tx - vx) > step ==> abs(tx - rx) == abs(tx - vx) - step)
        }),
{
    let dx = tx - vx;
    let d2 = dx * dx + (y - y) * (y - y);
    if abs(dx) <= step {
        assert(d2 <= step * step) by (nonlinear_arith)
            requires
                d2 == dx * dx,
                -step <= dx <= step,
        ;
    } else {
        assert(step * step < d2 && is_sqrt_floor(d2, abs(dx) as int) && 1 <= abs(
            dx,
        )) by (nonlinear_arith)
            requires
                d2 == dx * dx,
                0 <= step,
                abs(dx) > step,
                abs(dx) == if dx >= 0 { dx } else { -dx },
        ;
        lemma_sqrt_floor_is(d2, abs(dx) as int);
        let dist = abs(dx) as int;
        lemma_div_of0(dist);
        let (rx, ry) = spec_move_towards(vx, y, tx, y, step);
        assert(ry == y + div_towards_zero((y - y) * step, dist));
        if dx > 0 {
            assert(dx * step >= 0) by (nonlinear_arith)
                requires
                    dx > 0,
                    step >= 0,
            ;
            lemma_div_multiples_vanish(step, dx);
            assert(rx == vx + step);
        } else {
            if step == 0 {
                assert(dx * step == 0) by (nonlinear_arith)
                    requires
                        step == 0,
                ;
                assert(rx == vx);
            } else {
                assert(dx * step < 0 && -(dx * step) == (-dx) * step) by (nonlinear_arith)
                    requires
                        dx < 0,
                        step > 0,
                ;
                lemma_div_multiples_vanish(step, -dx);
                assert(rx == vx - step);
            }
        }
    }
}

/// Stepping toward a target that differs only along the y axis keeps the x
/// coordinate and closes the y gap by exactly `step`, until the gap is within
/// `step` and the target is reached.
pub proof fn lemma_move_towards_on_axis_y(vy: int, ty: int, x: int, step: int)
    requires
        0 <= step,
    ensures
        ({
            let (rx, ry) = spec_move_towards(x, vy, x, ty, step);
            &&& rx == x
            &&& (abs(ty - vy) <= step ==> ry == ty)
            &&& (abs(ty - vy) > step ==> abs(ty - ry) == abs(ty - vy) - step)
        }),
{
    let dy = ty - vy;
    let d2 = (x - x) * (x - x) + dy * dy;
    if abs(dy) <= step {
        assert(d2 <= step * step) by (nonlinear_arith)
            requires
                d2 == dy * dy,
                -step <= dy <= step,
        ;
    } else {
        assert(step * step < d2 && is_sqrt_floor(d2, abs(dy) as int) && 1 <= abs(
            dy,
        )) by (nonlinear_arith)
            requires
                d2 == dy * dy,
                0 <= step,
                abs(dy) > step,
                abs(dy) == if dy >= 0 { dy } else { -dy },
        ;
        lemma_sqrt_floor_is(d2, abs(dy) as int);
        let dist = abs(dy) as int;
        lemma_div_of0(dist);
        let (rx, ry) = spec_move_towards(x, vy, x, ty, step);
        assert(rx == x + div_towards_zero((x - x) * step, dist));
        if dy > 0 {
            assert(dy * step >= 0) by (nonlinear_arith)
                requires
                    dy > 0,
                    step >= 0,
            ;
            lemma_div_multiples_vanish(step, dy);
            assert(ry == vy + step);
        } else {
            if step == 0 {
                assert(dy * step == 0) by (nonlinear_arith)
                    requires
                        step == 0,
                ;
                assert(ry == vy);
            } else {
                assert(dy * step < 0 && -(dy * step) == (-dy) * step) by (nonlinear_arith)
                    requires
                        dy < 0,
                        step > 0,
                ;
                lemma_div_multiples_vanish(step, -dy);
                assert(ry == vy - step);
            }
        }
    }
}

/// Binary search for the floor square root.
fn isqrt(n: u64) -> (r: u64)
    requires
        n < 281_474_976_710_656,  // 2^48
    ensures
        is_sqrt_floor(n as int, r as int),
        r as int == sqrt_floor(n as int),
{
    let mut lo: u64 = 0;
    let mut hi: u64 = 16_777_216;  // 2^24
    proof {
        assert(n < hi * hi) by (nonlinear_arith)
            requires
                n < 281_474_976_710_656u64,
                hi == 16_777_216u64,
        ;
    }
    while lo + 1 < hi
        invariant
            lo < hi,
            hi <= 16_777_216,
            lo * lo <= n,
            n < hi * hi,
        decreases hi - lo,
    {
        let mid: u64 = lo + (hi - lo) / 2;
        proof {
            assert(mid * mid < 281_474_976_710_657) by (nonlinear_arith)
                requires
                    mid <= 16_777_216u64,
            ;
        }
        if mid * mid <= n {
            lo = mid;
        } else {
            hi = mid;
        }
    }
    proof {
        assert(hi == lo + 1);
        lemma_sqrt_floor_is(n as int, lo as int);
    }
    lo
}

/// The vector `(vx, vy)` stepped toward `(tx, ty)` by at most `step`: the
/// target itself once it is within `step`, and otherwise `step` subunits
/// along the straight line toward it (to fixed-point precision).
pub open spec fn spec_move_towards(vx: int, vy: int, tx: int, ty: int, step: int) -> (int, int) {
    let dx = tx - vx;
    let dy = ty - vy;
    let d2 = dx * dx + dy * dy;
    if d2 <= step * step {
        (tx, ty)
    } else {
        let dist = sqrt_floor(d2);
        (vx + div_towards_zero(dx * step, dist), vy + div_towards_zero(dy * step, dist))
    }
}

/// `(x, y)` rescaled to length `SCALE` (to fixed-point precision), or kept
/// as it is when it is the zero vector.
pub open spec fn spec_normalized(x: int, y: int) -> (int, int) {
    if x == 0 && y == 0 {
        (0, 0)
    } else {
        let len = sqrt_floor(x * x + y * y);
        (div_towards_zero(x * SCALE, len), div_towards_zero(y * SCALE, len))
    }
}

/// Quotient rounded toward zero, for a positive divisor.
fn div_trunc(a: i64, b: i64) -> (r: i64)
    requires
        1 <= b,
        -0x4000_0000_0000_0000 <= a <= 0x4000_0000_0000_0000,
    ensures
        r == div_towards_zero(a as int, b as int),
{
    if a >= 0 {
        let q: u64 = (a as u64) / (b as u64);
        proof {
            lemma_div_nonincreasing(a as int, b as int);
        }
        q as i64
    } else {
        let m: u64 = ((-a) as u64) / (b as u64);
        proof {
            lemma_div_nonincreasing(-a as int, b as int);
        }
        -(m as i64)
    }
}

} // verus!
