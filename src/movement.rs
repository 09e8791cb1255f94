//! Mapping of discrete movement input to a planar velocity.
use vstd::math::abs;
use vstd::prelude::*;

verus! {

/// Fixed-point scale of a heading: a component of `HEADING_ONE` stands for 1.
pub const HEADING_ONE: i64 = 1000000;

/// The movement keys held during one tick.
#[derive(Clone, Copy, Debug, PartialEq, Eq, Structural)]
pub struct InputState {
    pub forward: bool,
    pub back: bool,
    pub strafe_left: bool,
    pub strafe_right: bool,
    pub turn_left: bool,
    pub turn_right: bool,
    pub jump: bool,
}

/// The horizontal direction in which forward input moves the body, as a
/// fixed-point unit vector over the x and z axes, rounded to whole units of
/// `1 / HEADING_ONE`. Strafing left moves along `(z, -x)`.
#[derive(Clone, Copy, Debug, PartialEq, Eq, Structural)]
pub struct Heading {
    pub x: i64,
    pub z: i64,
}

impl Heading {
    /// The vector has unit length up to rounding, and so does each component.
    pub open spec fn wf(&self) -> bool {
        &&& -HEADING_ONE <= self.x <= HEADING_ONE
        &&& -HEADING_ONE <= self.z <= HEADING_ONE
        &&& (HEADING_ONE - 1) * (HEADING_ONE - 1) <= self.x * self.x + self.z * self.z
        &&& self.x * self.x + self.z * self.z <= (HEADING_ONE + 1) * (HEADING_ONE + 1)
    }

    /// Whether the heading is a unit vector up to rounding.
    pub fn is_valid(&self) -> (r: bool)
        ensures
            r == self.wf(),
    {
        if self.x < -HEADING_ONE || self.x > HEADING_ONE || self.z < -HEADING_ONE || self.z
            > HEADING_ONE {
            return false;
        }
        assert(0 <= self.x * self.x <= 1000000 * 1000000) by (nonlinear_arith)
            requires
                -1000000 <= self.x <= 1000000,
        ;
        assert(0 <= self.z * self.z <= 1000000 * 1000000) by (nonlinear_arith)
            requires
                -1000000 <= self.z <= 1000000,
        ;
        let sq: i64 = self.x * self.x + self.z * self.z;
        assert((HEADING_ONE - 1) * (HEADING_ONE - 1) == 999998000001);
        assert((HEADING_ONE + 1) * (HEADING_ONE + 1) == 1000002000001);
        999998000001 <= sq && sq <= 1000002000001
    }
}

/// The sum of a +1 and a -1 contribution, one per held key.
pub open spec fn axis_value(positive: bool, negative: bool) -> int {
    (if positive { 1int } else { 0int }) - (if negative { 1int } else { 0int })
}

/// Combines two opposing keys into -1, 0 or 1; holding both cancels exactly.
pub fn axis(positive: bool, negative: bool) -> (r: i8)
    ensures
        r == axis_value(positive, negative),
        -1 <= r <= 1,
{
    let mut r: i8 = 0;
    if positive {
        r = r + 1;
    }
    if negative {
        r = r - 1;
    }
    r
}

/// Yaw to turn by this tick, in milliradians: positive to the left.
pub fn yaw_delta(input: &InputState, rotate_speed: u32) -> (r: i64)
    ensures
        r == axis_value(input.turn_left, input.turn_right) * rotate_speed,
{
    signed(axis(input.turn_left, input.turn_right), rotate_speed as i64)
}

/// `d` is the per-axis speed of a diagonal move at `speed`: the largest whole
/// value whose two equal components do not exceed `speed` in length.
pub open spec fn is_diagonal_of(d: int, speed: int) -> bool {
    0 <= d && 2 * d * d <= speed * speed < 2 * (d + 1) * (d + 1)
}

/// The per-axis speed of a diagonal move at `speed`.
pub open spec fn diagonal_of(speed: int) -> int {
    choose|d: int| is_diagonal_of(d, speed)
}

/// At most one value is the diagonal speed of a given speed.
pub proof fn lemma_diagonal_unique(d1: int, d2: int, speed: int)
    requires
        is_diagonal_of(d1, speed),
        is_diagonal_of(d2, speed),
    ensures
        d1 == d2,
{
    if d1 < d2 {
        assert(2 * (d1 + 1) * (d1 + 1) <= 2 * d2 * d2) by (nonlinear_arith)
            requires
                0 <= d1,
                d1 + 1 <= d2,
        ;
    } else if d2 < d1 {
        assert(2 * (d2 + 1) * (d2 + 1) <= 2 * d1 * d1) by (nonlinear_arith)
            requires
                0 <= d2,
                d2 + 1 <= d1,
        ;
    }
}

/// Every speed has a diagonal speed.
pub proof fn lemma_diagonal_exists(speed: nat)
    ensures
        is_diagonal_of(diagonal_of(speed as int), speed as int),
    decreases speed,
{
    let s = speed as int;
    if speed == 0 {
        assert(is_diagonal_of(0, 0));
    } else {
        lemma_diagonal_exists((speed - 1) as nat);
        let p = s - 1;
        let d = diagonal_of(p);
        assert(p < 2 * (d + 1)) by (nonlinear_arith)
            requires
                0 <= p,
                0 <= d,
                p * p < 2 * (d + 1) * (d + 1),
        ;
        if 2 * (d + 1) * (d + 1) <= s * s {
            assert(s * s < 2 * (d + 2) * (d + 2)) by (nonlinear_arith)
                requires
                    s == p + 1,
                    0 <= d,
                    p * p < 2 * (d + 1) * (d + 1),
                    p < 2 * (d + 1),
            ;
            assert(is_diagonal_of(d + 1, s));
        } else {
            assert(2 * d * d <= s * s) by (nonlinear_arith)
                requires
                    s == p + 1,
                    0 <= p,
                    2 * d * d <= p * p,
            ;
            assert(is_diagonal_of(d, s));
        }
    }
}

/// Computes the per-axis speed of a diagonal move, so that a move along two
/// axes is as fast as one along a single axis, rounded down.
pub fn diagonal_speed(speed: u32) -> (d: u32)
    ensures
        is_diagonal_of(d as int, speed as int),
        d == diagonal_of(speed as int),
        d <= speed,
{
    let s: u128 = speed as u128;
    assert(s * s <= 0xffff_ffffu128 * 0xffff_ffffu128) by (nonlinear_arith)
        requires
            s <= 0xffff_ffffu128,
    ;
    let sq: u128 = s * s;
    let mut lo: u128 = 0;
    let mut hi: u128 = s + 1;
    assert(sq < 2 * hi * hi) by (nonlinear_arith)
        requires
            sq == s * s,
            hi == s + 1,
            s >= 0,
    ;
    while hi - lo > 1
        invariant
            s <= u32::MAX,
            sq == s * s,
            lo < hi <= s + 1,
            2 * lo * lo <= sq,
            sq < 2 * hi * hi,
        decreases hi - lo,
    {
        let mid: u128 = lo + (hi - lo) / 2;
        assert(2 * mid * mid <= 2 * 0x1_0000_0000u128 * 0x1_0000_0000u128) by (nonlinear_arith)
            requires
                0 <= mid <= 0x1_0000_0000u128,
        ;
        if 2 * mid * mid <= sq {
            lo = mid;
        } else {
            hi = mid;
        }
    }
    let d: u32 = lo as u32;
    proof {
        assert(is_diagonal_of(d as int, speed as int));
        let c = diagonal_of(speed as int);
        lemma_diagonal_unique(c, d as int, speed as int);
    }
    d
}

/// The planar velocity, along the forward and the left strafe axes of the
/// body, for the given axis values: a single axis moves at `speed`, two axes
/// at the diagonal speed each, no axis not at all.
pub open spec fn planar_velocity(forward_axis: int, side_axis: int, speed: int) -> (int, int) {
    if forward_axis != 0 && side_axis != 0 {
        (forward_axis * diagonal_of(speed), side_axis * diagonal_of(speed))
    } else {
        (forward_axis * speed, side_axis * speed)
    }
}

/// Computes the planar velocity along the body's forward and left strafe axes.
pub fn planar_local(forward_axis: i8, side_axis: i8, speed: u32) -> (r: (i64, i64))
    requires
        -1 <= forward_axis <= 1,
        -1 <= side_axis <= 1,
    ensures
        (r.0 as int, r.1 as int) == planar_velocity(forward_axis as int, side_axis as int, speed as int),
        -u32::MAX <= r.0 <= u32::MAX,
        -u32::MAX <= r.1 <= u32::MAX,
{
    if forward_axis != 0 && side_axis != 0 {
        let d: i64 = diagonal_speed(speed) as i64;
        (signed(forward_axis, d), signed(side_axis, d))
    } else {
        let s: i64 = speed as i64;
        (signed(forward_axis, s), signed(side_axis, s))
    }
}

/// Gives `magnitude` the sign of `axis`, or zero for a released axis.
pub(crate) fn signed(axis: i8, magnitude: i64) -> (r: i64)
    requires
        -1 <= axis <= 1,
        0 <= magnitude <= u32::MAX,
    ensures
        r == axis * magnitude,
        -magnitude <= r <= magnitude,
{
    if axis > 0 {
        assert(axis == 1);
        magnitude
    } else if axis < 0 {
        assert(axis == -1);
        -magnitude
    } else {
        assert(axis == 0);
        0
    }
}

/// Division that rounds toward zero, as integer division does in Rust.
pub open spec fn div_toward_zero(a: int, b: int) -> int {
    if a >= 0 {
        a / b
    } else {
        -((-a) / b)
    }
}

/// The world-space (x, z) velocity of a planar velocity given along the
/// body's forward and left strafe axes, for a body with heading `h`.
pub open spec fn world_planar(local: (int, int), h: Heading) -> (int, int) {
    (
        div_toward_zero(local.0 * h.x + local.1 * h.z, HEADING_ONE as int),
        div_toward_zero(local.0 * h.z - local.1 * h.x, HEADING_ONE as int),
    )
}

/// Turns a planar velocity along the body's axes into world x and z.
pub fn to_world(local: (i64, i64), h: Heading) -> (r: (i64, i64))
    requires
        h.wf(),
        -0x1_0000_0000 <= local.0 <= 0x1_0000_0000,
        -0x1_0000_0000 <= local.1 <= 0x1_0000_0000,
    ensures
        (r.0 as int, r.1 as int) == world_planar((local.0 as int, local.1 as int), h),
{
    proof {
        assert(-0x1_0000_0000 * HEADING_ONE <= local.0 * h.x <= 0x1_0000_0000 * HEADING_ONE) by (nonlinear_arith)
            requires
                -0x1_0000_0000 <= local.0 <= 0x1_0000_0000,
                -HEADING_ONE <= h.x <= HEADING_ONE,
        ;
        assert(-0x1_0000_0000 * HEADING_ONE <= local.1 * h.z <= 0x1_0000_0000 * HEADING_ONE) by (nonlinear_arith)
            requires
                -0x1_0000_0000 <= local.1 <= 0x1_0000_0000,
                -HEADING_ONE <= h.z <= HEADING_ONE,
        ;
        assert(-0x1_0000_0000 * HEADING_ONE <= local.0 * h.z <= 0x1_0000_0000 * HEADING_ONE) by (nonlinear_arith)
            requires
                -0x1_0000_0000 <= local.0 <= 0x1_0000_0000,
                -HEADING_ONE <= h.z <= HEADING_ONE,
        ;
        assert(-0x1_0000_0000 * HEADING_ONE <= local.1 * h.x <= 0x1_0000_0000 * HEADING_ONE) by (nonlinear_arith)
            requires
                -0x1_0000_0000 <= local.1 <= 0x1_0000_0000,
                -HEADING_ONE <= h.x <= HEADING_ONE,
        ;
    }
    let x: i64 = local.0 * h.x + local.1 * h.z;
    let z: i64 = local.0 * h.z - local.1 * h.x;
    (scale_down(x), scale_down(z))
}

/// Divides a fixed-point product by `HEADING_ONE`, rounding toward zero.
fn scale_down(a: i64) -> (r: i64)
    requires
        a > i64::MIN,
    ensures
        r == div_toward_zero(a as int, HEADING_ONE as int),
{
    if a >= 0 {
        a / HEADING_ONE
    } else {
        -((-a) / HEADING_ONE)
    }
}

/// The planar velocity along the body's axes and in the world for the keys
/// held in `input`.
pub open spec fn planar_target(input: InputState, h: Heading, speed: u32) -> (int, int) {
    world_planar(
        planar_velocity(
            axis_value(input.forward, input.back),
            axis_value(input.strafe_left, input.strafe_right),
            speed as int,
        ),
        h,
    )
}

/// Opposing keys cancel: holding forward and back gives no forward motion,
/// holding both strafe keys gives no sideways motion, and with every pair
/// cancelled or released the body stands still whatever its heading.
pub proof fn lemma_opposing_inputs_cancel(input: InputState, h: Heading, speed: u32)
    ensures
        input.forward && input.back ==> planar_velocity(
            axis_value(input.forward, input.back),
            axis_value(input.strafe_left, input.strafe_right),
            speed as int,
        ).0 == 0,
        input.strafe_left && input.strafe_right ==> planar_velocity(
            axis_value(input.forward, input.back),
            axis_value(input.strafe_left, input.strafe_right),
            speed as int,
        ).1 == 0,
        input.forward == input.back && input.strafe_left == input.strafe_right ==> planar_target(
            input,
            h,
            speed,
        ) == (0int, 0int),
{
    if input.forward == input.back && input.strafe_left == input.strafe_right {
        let p = planar_velocity(
            axis_value(input.forward, input.back),
            axis_value(input.strafe_left, input.strafe_right),
            speed as int,
        );
        assert(p == (0int, 0int));
        assert(p.0 * h.x + p.1 * h.z == 0);
        assert(p.0 * h.z - p.1 * h.x == 0);
    }
}

/// Any movement moves at the configured speed: exactly along one axis, and
/// along two axes with equal components whose length is the speed rounded
/// down to whole units.
pub proof fn lemma_planar_speed(forward_axis: int, side_axis: int, speed: u32)
    requires
        -1 <= forward_axis <= 1,
        -1 <= side_axis <= 1,
        forward_axis != 0 || side_axis != 0,
    ensures
        ({
            let p = planar_velocity(forward_axis, side_axis, speed as int);
            let s = speed as int;
            &&& (forward_axis == 0 || side_axis == 0) ==> p.0 * p.0 + p.1 * p.1 == s * s
            &&& (forward_axis != 0 && side_axis != 0) ==> {
                &&& p.0 * p.0 == p.1 * p.1
                &&& p.0 * p.0 + p.1 * p.1 <= s * s
                &&& s * s < 2 * (abs(p.0) + 1) * (abs(p.0) + 1)
            }
        }),
{
    lemma_diagonal_exists(speed as nat);
    let d = diagonal_of(speed as int);
    let s = speed as int;
    let p = planar_velocity(forward_axis, side_axis, s);
    if forward_axis != 0 && side_axis != 0 {
        assert(p.0 * p.0 == d * d) by (nonlinear_arith)
            requires
                p.0 == forward_axis * d,
                forward_axis == 1 || forward_axis == -1,
        ;
        assert(p.1 * p.1 == d * d) by (nonlinear_arith)
            requires
                p.1 == side_axis * d,
                side_axis == 1 || side_axis == -1,
        ;
        assert(abs(p.0) == d);
        assert(p.0 * p.0 + p.1 * p.1 == 2 * d * d) by (nonlinear_arith)
            requires
                p.0 * p.0 == d * d,
                p.1 * p.1 == d * d,
        ;
    } else {
        assert(p.0 * p.0 + p.1 * p.1 == s * s) by (nonlinear_arith)
            requires
                p.0 == forward_axis * s,
                p.1 == side_axis * s,
                -1 <= forward_axis <= 1,
                -1 <= side_axis <= 1,
                forward_axis == 0 || side_axis == 0,
                forward_axis != 0 || side_axis != 0,
        ;
    }
}

/// Rounding toward zero loses less than one whole unit of the quotient.
proof fn lemma_div_toward_zero_bounds(a: int, n: int)
    requires
        n > 0,
    ensures
        0 <= n * abs(div_toward_zero(a, n)) <= abs(a) < n * (abs(div_toward_zero(a, n)) + 1),
{
    let m = abs(a) as int;
    vstd::arithmetic::div_mod::lemma_fundamental_div_mod(m, n);
    vstd::arithmetic::div_mod::lemma_mod_pos_bound(m, n);
    let q = m / n;
    let r = m % n;
    assert(q >= 0 && n * q <= m < n * (q + 1)) by (nonlinear_arith)
        requires
            m == n * q + r,
            0 <= r < n,
            m >= 0,
            n > 0,
    ;
    assert(abs(div_toward_zero(a, n)) == q);
}

/// Squares of the bounds above.
proof fn lemma_div_toward_zero_squares(a: int, n: int)
    requires
        n > 0,
    ensures
        n * n * (div_toward_zero(a, n) * div_toward_zero(a, n)) <= a * a,
        a * a < n * n * ((abs(div_toward_zero(a, n)) + 1) * (abs(div_toward_zero(a, n)) + 1)),
{
    lemma_div_toward_zero_bounds(a, n);
    let q = div_toward_zero(a, n);
    let u = abs(q) as int;
    let m = abs(a) as int;
    assert(q * q == u * u) by (nonlinear_arith)
        requires
            u == q || u == -q,
    ;
    assert(a * a == m * m) by (nonlinear_arith)
        requires
            m == a || m == -a,
    ;
    assert(n * n * (u * u) <= m * m && m * m < n * n * ((u + 1) * (u + 1))) by (nonlinear_arith)
        requires
            0 <= n * u <= m < n * (u + 1),
            n > 0,
            u >= 0,
    ;
}

/// Regrouping a product of four factors.
proof fn lemma_mul_regroup(a: int, b: int, c: int, d: int)
    ensures
        (a * c) * (b * d) == (a * b) * (c * d),
{
    assert((a * c) * (b * d) == (a * b) * (c * d)) by (nonlinear_arith);
}

/// Rotating by a heading scales squared lengths by the heading's squared length.
proof fn lemma_rotation_norm(a: int, b: int, hx: int, hz: int)
    ensures
        (a * hx + b * hz) * (a * hx + b * hz) + (a * hz - b * hx) * (a * hz - b * hx) == (a * a
            + b * b) * (hx * hx + hz * hz),
{
    let (p1, p2, p3, p4) = (a * hx, b * hz, a * hz, b * hx);
    assert((p1 + p2) * (p1 + p2) == p1 * p1 + 2 * (p1 * p2) + p2 * p2) by (nonlinear_arith);
    assert((p3 - p4) * (p3 - p4) == p3 * p3 - 2 * (p3 * p4) + p4 * p4) by (nonlinear_arith);
    lemma_mul_regroup(a, a, hx, hx);
    lemma_mul_regroup(b, b, hz, hz);
    lemma_mul_regroup(a, a, hz, hz);
    lemma_mul_regroup(b, b, hx, hx);
    lemma_mul_regroup(a, b, hx, hz);
    lemma_mul_regroup(a, b, hz, hx);
    assert(hz * hx == hx * hz);
    let (aa, bb, xx, zz) = (a * a, b * b, hx * hx, hz * hz);
    assert((aa + bb) * (xx + zz) == aa * xx + aa * zz + bb * xx + bb * zz) by (nonlinear_arith);
}

/// A diagonal move is at most two units slower than the speed.
proof fn lemma_diagonal_lower(d: int, speed: int)
    requires
        is_diagonal_of(d, speed),
        speed >= 2,
    ensures
        (speed - 2) * (speed - 2) <= 2 * d * d,
{
    if 2 * d * d < (speed - 2) * (speed - 2) {
        assert(d <= speed - 3) by (nonlinear_arith)
            requires
                0 <= d,
                speed >= 2,
                2 * d * d < (speed - 2) * (speed - 2),
        ;
        assert(2 * (d + 1) * (d + 1) < speed * speed) by (nonlinear_arith)
            requires
                0 <= d <= speed - 3,
                2 * d * d < (speed - 2) * (speed - 2),
        ;
    }
}

/// The squared length of the planar velocity along the body's axes lies
/// between `(speed - 2)^2` and `speed^2` for any movement.
proof fn lemma_planar_norm_bounds(forward_axis: int, side_axis: int, speed: int)
    requires
        -1 <= forward_axis <= 1,
        -1 <= side_axis <= 1,
        forward_axis != 0 || side_axis != 0,
        speed >= 2,
        speed <= u32::MAX,
    ensures
        ({
            let p = planar_velocity(forward_axis, side_axis, speed);
            (speed - 2) * (speed - 2) <= p.0 * p.0 + p.1 * p.1 <= speed * speed
        }),
{
    lemma_planar_speed(forward_axis, side_axis, speed as u32);
    lemma_diagonal_exists(speed as nat);
    let p = planar_velocity(forward_axis, side_axis, speed);
    if forward_axis != 0 && side_axis != 0 {
        let d = diagonal_of(speed);
        lemma_diagonal_lower(d, speed);
        assert(p.0 * p.0 + p.1 * p.1 == 2 * d * d) by (nonlinear_arith)
            requires
                p.0 == forward_axis * d,
                p.1 == side_axis * d,
                forward_axis == 1 || forward_axis == -1,
                side_axis == 1 || side_axis == -1,
        ;
    } else {
        assert((speed - 2) * (speed - 2) <= speed * speed) by (nonlinear_arith)
            requires
                speed >= 2,
        ;
    }
}

/// Any movement moves the body through the world at the configured speed,
/// whatever its heading, to within `speed / HEADING_ONE + 5` units: the
/// squared length of the world-space (x, z) velocity lies between the
/// squares of the speed less and plus that tolerance.
pub proof fn lemma_world_speed(input: InputState, h: Heading, speed: u32)
    requires
        h.wf(),
        axis_value(input.forward, input.back) != 0 || axis_value(input.strafe_left, input.strafe_right) != 0,
    ensures
        ({
            let v = planar_target(input, h, speed);
            let s = speed as int;
            let tol = s / (HEADING_ONE as int) + 5;
            &&& v.0 * v.0 + v.1 * v.1 <= (s + tol) * (s + tol)
            &&& s >= tol ==> (s - tol) * (s - tol) <= v.0 * v.0 + v.1 * v.1
        }),
{
    let n = HEADING_ONE as int;
    let s = speed as int;
    let fa = axis_value(input.forward, input.back);
    let sa = axis_value(input.strafe_left, input.strafe_right);
    let p = planar_velocity(fa, sa, s);
    let hx = h.x as int;
    let hz = h.z as int;
    let xx = p.0 * hx + p.1 * hz;
    let zz = p.0 * hz - p.1 * hx;
    let v = planar_target(input, h, speed);
    let tol = s / n + 5;
    assert(v == (div_toward_zero(xx, n), div_toward_zero(zz, n)));
    let pn = p.0 * p.0 + p.1 * p.1;
    let hn = hx * hx + hz * hz;
    let q = xx * xx + zz * zz;
    lemma_rotation_norm(p.0, p.1, hx, hz);
    assert(q == pn * hn);
    lemma_div_toward_zero_squares(xx, n);
    lemma_div_toward_zero_squares(zz, n);
    let vn = v.0 * v.0 + v.1 * v.1;
    vstd::arithmetic::div_mod::lemma_fundamental_div_mod(s, n);
    vstd::arithmetic::div_mod::lemma_mod_pos_bound(s, n);
    assert(n * (s / n) > s - n);
    // Upper bound.
    assert(n * n * vn <= q) by (nonlinear_arith)
        requires
            n * n * (v.0 * v.0) <= xx * xx,
            n * n * (v.1 * v.1) <= zz * zz,
            vn == v.0 * v.0 + v.1 * v.1,
            q == xx * xx + zz * zz,
    ;
    if s >= 2 {
        lemma_planar_norm_bounds(fa, sa, s);
    } else {
        lemma_planar_speed(fa, sa, speed);
        lemma_diagonal_exists(speed as nat);
        if fa != 0 && sa != 0 {
            assert(diagonal_of(s) == 0) by (nonlinear_arith)
                requires
                    is_diagonal_of(diagonal_of(s), s),
                    0 <= s <= 1,
            ;
            assert(p == (0int, 0int));
        }
    }
    assert(pn <= s * s);
    assert(0 <= pn) by (nonlinear_arith)
        requires
            pn == p.0 * p.0 + p.1 * p.1,
    ;
    assert(q <= s * s * ((n + 1) * (n + 1))) by (nonlinear_arith)
        requires
            q == pn * hn,
            0 <= pn <= s * s,
            0 <= hn <= (n + 1) * (n + 1),
    ;
    assert(s * (n + 1) <= n * (s + tol)) by (nonlinear_arith)
        requires
            n * (s / n) > s - n,
            tol == s / n + 5,
            n > 0,
            s >= 0,
    ;
    assert(vn <= (s + tol) * (s + tol)) by (nonlinear_arith)
        requires
            n * n * vn <= q,
            q <= s * s * ((n + 1) * (n + 1)),
            0 <= s * (n + 1) <= n * (s + tol),
            n > 0,
    ;
    // Lower bound.
    assert(vn >= 0) by (nonlinear_arith)
        requires
            vn == v.0 * v.0 + v.1 * v.1,
    ;
    if s > tol {
        let r = s - tol;
        if vn < r * r {
            let u = abs(v.0) as int;
            let w = abs(v.1) as int;
            assert(v.0 * v.0 == u * u) by (nonlinear_arith)
                requires
                    u == v.0 || u == -v.0,
            ;
            assert(v.1 * v.1 == w * w) by (nonlinear_arith)
                requires
                    w == v.1 || w == -v.1,
            ;
            assert(u <= r - 1 && w <= r - 1) by (nonlinear_arith)
                requires
                    vn == u * u + w * w,
                    vn < r * r,
                    u >= 0,
                    w >= 0,
                    r > 0,
            ;
            assert(q < n * n * ((r + 2) * (r + 2))) by (nonlinear_arith)
                requires
                    xx * xx < n * n * ((u + 1) * (u + 1)),
                    zz * zz < n * n * ((w + 1) * (w + 1)),
                    q == xx * xx + zz * zz,
                    vn == u * u + w * w,
                    vn < r * r,
                    0 <= u <= r - 1,
                    0 <= w <= r - 1,
                    n > 0,
            ;
            assert(n * (r + 2) < (n - 1) * (s - 2)) by (nonlinear_arith)
                requires
                    n * (s / n) > s - n,
                    r == s - tol,
                    tol == s / n + 5,
                    n > 1,
            ;
            assert(n * n * ((r + 2) * (r + 2)) < (n - 1) * (n - 1) * ((s - 2) * (s - 2))) by (nonlinear_arith)
                requires
                    0 <= n * (r + 2) < (n - 1) * (s - 2),
                    r > 0,
                    n > 1,
            ;
            assert((n - 1) * (n - 1) * ((s - 2) * (s - 2)) <= q) by (nonlinear_arith)
                requires
                    q == pn * hn,
                    (s - 2) * (s - 2) <= pn,
                    (n - 1) * (n - 1) <= hn,
                    n > 1,
            ;
        }
    } else if s == tol {
        assert((s - tol) * (s - tol) <= vn) by (nonlinear_arith)
            requires
                s == tol,
                vn >= 0,
        ;
    }
}

} // verus!
