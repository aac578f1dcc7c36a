//! Planar motion: strafe-style acceleration with a projected speed cap,
//! counter-impulse braking, and the hard planar speed limit.

use crate::math::abs_of;
use crate::math::cdiv;
use crate::math::ceil_sqrt;
use crate::math::ceil_sqrt_u128;
use crate::math::floor_sqrt;
use crate::math::lemma_ceil_sqrt;
use crate::math::lemma_cdiv_lower;
use crate::math::lemma_floor_sqrt;
use crate::math::lemma_mul_bounds;
use crate::math::lemma_tdiv_bounds;
use crate::math::sgn;
use crate::math::tdiv;
use crate::math::SCALE;
use crate::ground::Grounded;
use crate::vector::v2_bounded;
use crate::vector::v3_bounded;
use crate::vector::Rotation2D;
use crate::vector::Vec2;
use crate::vector::Vec3;
use crate::vector::V2;
use crate::vector::V3;
use vstd::prelude::*;

verus! {

/// Velocities this close to zero count as standing still for the
/// counter-impulse test.
pub const COUNTER_DEADZONE: i64 = 1;

/// Counter-impulse braking: an axis whose input opposes the current
/// velocity beyond the deadzone has its velocity zeroed outright.
pub open spec fn spec_counter_impulse(input: V2, rel: V3) -> V3 {
    V3 {
        x: if (input.x < 0 && rel.x > COUNTER_DEADZONE as int) || (input.x > 0 && rel.x
            < -COUNTER_DEADZONE as int) {
            0int
        } else {
            rel.x
        },
        y: rel.y,
        z: if (input.y < 0 && rel.z < -COUNTER_DEADZONE as int) || (input.y > 0 && rel.z
            > COUNTER_DEADZONE as int) {
            0int
        } else {
            rel.z
        },
    }
}

/// Completely negates the velocity of an axis if an input is performed in
/// the opposite direction (an instant stop, not a gradual deceleration).
pub fn counter_impulse(input: Vec2, relative_velocity: Vec3) -> (r: Vec3)
    ensures
        r@ == spec_counter_impulse(input@, relative_velocity@),
{
    let mut o = relative_velocity;
    if (input.x < 0 && relative_velocity.x > COUNTER_DEADZONE) || (input.x > 0
        && relative_velocity.x < -COUNTER_DEADZONE) {
        o.x = 0;
    }
    if (input.y < 0 && relative_velocity.z < -COUNTER_DEADZONE) || (input.y > 0
        && relative_velocity.z > COUNTER_DEADZONE) {
        o.z = 0;
    }
    o
}

/// One planar component rescaled onto the cap: the magnitude is scaled by
/// `m / r` (rounded down) and the sign restored.
pub open spec fn spec_scaled_component(c: int, m: int, r: int) -> int {
    sgn(c) * ((abs_of(c) * m) / r)
}

/// The planar velocity clamped to `m`: when the planar speed exceeds the
/// cap (and the cap is not zero, which means unlimited), both planar
/// components are rescaled so the speed lands at or just below the cap;
/// the vertical component is untouched.
pub open spec fn spec_limit_velocity(v: V3, m: int) -> V3 {
    let s2 = v.x * v.x + v.z * v.z;
    if m != 0 && s2 > m * m {
        let r = ceil_sqrt(s2);
        V3 {
            x: spec_scaled_component(v.x, m, r),
            y: v.y,
            z: spec_scaled_component(v.z, m, r),
        }
    } else {
        v
    }
}

/// One component of the rescaling.
#[verifier::rlimit(30)]
fn scale_component(c: i64, m: i64, rc: u64) -> (out: i64)
    requires
        0 <= m,
        1 <= rc,
        (c as int) * (c as int) <= (rc as int) * (rc as int),
    ensures
        out as int == spec_scaled_component(c as int, m as int, rc as int),
        abs_of(out as int) <= m as int,
{
    let mag: i128 = if c < 0 {
        -(c as i128)
    } else {
        c as i128
    };
    proof {
        assert(mag as int == abs_of(c as int));
        assert(mag <= rc) by (nonlinear_arith)
            requires
                (c as int) * (c as int) <= (rc as int) * (rc as int),
                mag as int == abs_of(c as int),
                rc >= 1,
        ;
        assert((mag as u128) * (m as u128) <= (rc as u128) * (m as u128)) by (nonlinear_arith)
            requires
                0 <= mag <= rc as i128,
                m >= 0,
        ;
        lemma_mul_bounds(mag as int, m as int, 0x1_0000_0000_0000_0000, i64::MAX as int);
    }
    let num: u128 = (mag as u128) * (m as u128);
    let q: u128 = num / (rc as u128);
    proof {
        let p = (abs_of(c as int) * (m as int)) / (rc as int);
        assert(num as int == abs_of(c as int) * (m as int));
        assert(q as int == p);
        lemma_tdiv_bounds(abs_of(c as int) * (m as int), rc as int);
        assert(p * rc <= rc * m);
        assert(q <= m) by (nonlinear_arith)
            requires
                (q as int) * (rc as int) <= (rc as int) * (m as int),
                rc >= 1,
                q >= 0,
                m >= 0,
        ;
        if c == 0 {
            assert(mag == 0);
            vstd::arithmetic::div_mod::lemma_div_of0(rc as int);
            assert(p == 0);
        }
        if c < 0 {
            assert(sgn(c as int) * p == -p) by (nonlinear_arith)
                requires
                    sgn(c as int) == -1,
            ;
        } else if c > 0 {
            assert(sgn(c as int) * p == p) by (nonlinear_arith)
                requires
                    sgn(c as int) == 1,
            ;
        } else {
            assert(sgn(c as int) * p == 0) by (nonlinear_arith)
                requires
                    sgn(c as int) == 0,
            ;
        }
    }
    if c < 0 {
        -(q as i64)
    } else {
        q as i64
    }
}

/// Limits the planar velocity so that its magnitude does not exceed
/// `maximum_velocity`. After `accelerate_vector` this takes back what air
/// strafing would have gained over the cap, while keeping fluid controls.
/// A cap of zero means no limit.
pub fn limit_velocity(vec: Vec3, maximum_velocity: i64) -> (r: Vec3)
    requires
        0 <= maximum_velocity,
        i64::MIN < vec.x,
        i64::MIN < vec.z,
    ensures
        r@ == spec_limit_velocity(vec@, maximum_velocity as int),
        abs_of(r@.x) <= abs_of(vec@.x),
        abs_of(r@.z) <= abs_of(vec@.z),
        r@.y == vec@.y,
{
    proof {
        lemma_mul_bounds(vec.x as int, vec.x as int, i64::MAX as int, i64::MAX as int);
        lemma_mul_bounds(vec.z as int, vec.z as int, i64::MAX as int, i64::MAX as int);
        lemma_mul_bounds(
            maximum_velocity as int,
            maximum_velocity as int,
            i64::MAX as int,
            i64::MAX as int,
        );
        assert((vec.x as int) * (vec.x as int) >= 0) by (nonlinear_arith);
        assert((vec.z as int) * (vec.z as int) >= 0) by (nonlinear_arith);
    }
    let s2: i128 = (vec.x as i128) * (vec.x as i128) + (vec.z as i128) * (vec.z as i128);
    let mm: i128 = (maximum_velocity as i128) * (maximum_velocity as i128);
    if maximum_velocity != 0 && s2 > mm {
        proof {
            lemma_ceil_sqrt(s2 as int);
        }
        let rc: u64 = ceil_sqrt_u128(s2 as u128);
        proof {
            assert((vec.x as int) * (vec.x as int) <= (rc as int) * (rc as int));
            assert((vec.z as int) * (vec.z as int) <= (rc as int) * (rc as int));
        }
        proof {
            assert(maximum_velocity < rc) by (nonlinear_arith)
                requires
                    (maximum_velocity as int) * (maximum_velocity as int) < s2 as int,
                    s2 as int <= (rc as int) * (rc as int),
                    maximum_velocity >= 0,
                    rc >= 0,
            ;
        }
        let nx = scale_component(vec.x, maximum_velocity, rc);
        let nz = scale_component(vec.z, maximum_velocity, rc);
        proof {
            lemma_scaled_component_shrinks(vec.x as int, maximum_velocity as int, rc as int);
            lemma_scaled_component_shrinks(vec.z as int, maximum_velocity as int, rc as int);
        }
        Vec3 { x: nx, y: vec.y, z: nz }
    } else {
        vec
    }
}

/// Rescaling onto the cap never grows a component: the scale factor
/// `m / r` is at most one whenever the cap was exceeded.
proof fn lemma_scaled_component_shrinks(c: int, m: int, r: int)
    requires
        0 <= m <= r,
        1 <= r,
    ensures
        abs_of(spec_scaled_component(c, m, r)) <= abs_of(c),
{
    let ax = abs_of(c);
    assert(ax * m >= 0) by (nonlinear_arith)
        requires
            ax >= 0,
            m >= 0,
    ;
    lemma_tdiv_bounds(ax * m, r);
    let p = (ax * m) / r;
    assert(p >= 0 && p * r <= ax * m);
    assert(ax * m <= ax * r) by (nonlinear_arith)
        requires
            ax >= 0,
            m <= r,
    ;
    assert(p <= ax) by (nonlinear_arith)
        requires
            p * r <= ax * r,
            r >= 1,
    ;
    assert(abs_of(sgn(c) * p) <= p) by (nonlinear_arith)
        requires
            p >= 0,
            sgn(c) == 1 || sgn(c) == -1 || sgn(c) == 0,
    ;
}

/// The acceleration gained over one tick: `acceleration * delta_time`.
pub open spec fn spec_accel_amount(delta_time: int, acceleration: int) -> int {
    tdiv(acceleration * delta_time, SCALE as int)
}

/// Strafe acceleration: the current planar velocity is projected onto the
/// input direction and the tick's acceleration is clamped so that this
/// projection does not pass `max_velocity`; the clamped amount is then
/// added along the raw input vector. Only the projection is capped, so an
/// input orthogonal to the velocity accelerates at full strength even at
/// or past the cap — that is what permits strafing over it.
pub open spec fn spec_accelerate_vector(
    delta_time: int,
    input: V2,
    rel: V3,
    acceleration: int,
    max_velocity: int,
) -> V3 {
    let q = input.x * input.x + input.y * input.y;
    if q == 0 {
        rel
    } else {
        let n = floor_sqrt(q);
        let d = rel.x * input.x + rel.z * input.y;
        let proj = cdiv(d, n);
        let a0 = spec_accel_amount(delta_time, acceleration);
        let a1 = if proj + a0 > max_velocity {
            max_velocity - proj
        } else {
            a0
        };
        if a1 > 0 {
            V3 {
                x: rel.x + tdiv(input.x * a1, SCALE as int),
                y: rel.y,
                z: rel.z + tdiv(input.y * a1, SCALE as int),
            }
        } else {
            rel
        }
    }
}

/// Accelerates `rel` by `acceleration` along `input`. `max_velocity` caps
/// only the projection of the velocity onto the input direction, which
/// allows exceeding the cap by strafing: an input orthogonal to the
/// current velocity is applied in full.
pub fn accelerate_vector(
    delta_time: i64,
    input: Vec2,
    rel: Vec3,
    acceleration: i64,
    max_velocity: i64,
) -> (r: Vec3)
    requires
        0 <= delta_time <= crate::math::DT_LIMIT,
        v2_bounded(input@, SCALE as int),
        v3_bounded(rel@, 8 * crate::math::VEC_LIMIT as int),
        -crate::math::ACCEL_LIMIT <= acceleration <= crate::math::ACCEL_LIMIT,
        0 <= max_velocity <= crate::math::VEC_LIMIT,
    ensures
        r@ == spec_accelerate_vector(
            delta_time as int,
            input@,
            rel@,
            acceleration as int,
            max_velocity as int,
        ),
        abs_of(r@.x) <= abs_of(rel@.x) + crate::math::ACCEL_STEP_LIMIT,
        abs_of(r@.z) <= abs_of(rel@.z) + crate::math::ACCEL_STEP_LIMIT,
        r@.y == rel@.y,
{
    proof {
        lemma_mul_bounds(input.x as int, input.x as int, SCALE as int, SCALE as int);
        lemma_mul_bounds(input.y as int, input.y as int, SCALE as int, SCALE as int);
        assert((input.x as int) * (input.x as int) >= 0) by (nonlinear_arith);
        assert((input.y as int) * (input.y as int) >= 0) by (nonlinear_arith);
    }
    let q: i128 = (input.x as i128) * (input.x as i128) + (input.y as i128) * (input.y as i128);
    if q == 0 {
        return rel;
    }
    proof {
        lemma_floor_sqrt(q as int);
        assert(floor_sqrt(q as int) >= 1) by (nonlinear_arith)
            requires
                crate::math::is_floor_sqrt(q as int, floor_sqrt(q as int)),
                q as int >= 1,
        ;
    }
    let n64 = crate::math::floor_sqrt_u128(q as u128);
    let n: i128 = n64 as i128;
    proof {
        lemma_mul_bounds(
            rel.x as int,
            input.x as int,
            8 * crate::math::VEC_LIMIT as int,
            SCALE as int,
        );
        lemma_mul_bounds(
            rel.z as int,
            input.y as int,
            8 * crate::math::VEC_LIMIT as int,
            SCALE as int,
        );
    }
    let d: i128 = (rel.x as i128) * (input.x as i128) + (rel.z as i128) * (input.y as i128);
    let proj: i128 = crate::math::cdiv_i128(d, n);
    proof {
        lemma_mul_bounds(
            acceleration as int,
            delta_time as int,
            crate::math::ACCEL_LIMIT as int,
            crate::math::DT_LIMIT as int,
        );
        lemma_tdiv_bounds(acceleration as int * delta_time as int, SCALE as int);
    }
    let a0: i128 = crate::math::tdiv_i128(
        (acceleration as i128) * (delta_time as i128),
        SCALE as i128,
    );
    let a1: i128 = if proj + a0 > (max_velocity as i128) {
        (max_velocity as i128) - proj
    } else {
        a0
    };
    if a1 > 0 {
        proof {
            assert(a1 <= a0);
            assert(a1 <= crate::math::ACCEL_STEP_LIMIT);
            lemma_mul_bounds(
                input.x as int,
                a1 as int,
                SCALE as int,
                crate::math::ACCEL_STEP_LIMIT as int,
            );
            lemma_mul_bounds(
                input.y as int,
                a1 as int,
                SCALE as int,
                crate::math::ACCEL_STEP_LIMIT as int,
            );
            lemma_tdiv_bounds(input.x as int * a1 as int, SCALE as int);
            lemma_tdiv_bounds(input.y as int * a1 as int, SCALE as int);
        }
        let ax: i128 = crate::math::tdiv_i128((input.x as i128) * a1, SCALE as i128);
        let az: i128 = crate::math::tdiv_i128((input.y as i128) * a1, SCALE as i128);
        Vec3 { x: rel.x + (ax as i64), y: rel.y, z: rel.z + (az as i64) }
    } else {
        rel
    }
}

/// When the input points along the current planar velocity (and is no
/// longer than one unit), strafe acceleration never pushes the planar
/// speed past the cap: the velocity either keeps within `max_velocity` or
/// is left untouched.
pub proof fn lemma_accelerate_parallel_capped(
    delta_time: int,
    input: V2,
    rel: V3,
    acceleration: int,
    max_velocity: int,
    t: int,
)
    requires
        1 <= input.x * input.x + input.y * input.y <= SCALE * SCALE,
        t >= 0,
        rel.x == t * input.x,
        rel.z == t * input.y,
        0 <= max_velocity,
    ensures
        ({
            let r = spec_accelerate_vector(delta_time, input, rel, acceleration, max_velocity);
            r.x * r.x + r.z * r.z <= max_velocity * max_velocity || (r.x == rel.x && r.z == rel.z)
        }),
{
    let s = SCALE as int;
    let q = input.x * input.x + input.y * input.y;
    let maxv = max_velocity;
    lemma_floor_sqrt(q);
    let n = floor_sqrt(q);
    assert(n >= 1);
    let d = rel.x * input.x + rel.z * input.y;
    assert(d == t * q) by (nonlinear_arith)
        requires
            rel.x == t * input.x,
            rel.z == t * input.y,
            d == rel.x * input.x + rel.z * input.y,
            q == input.x * input.x + input.y * input.y,
    ;
    let proj = cdiv(d, n);
    lemma_cdiv_lower(d, n);
    let a0 = spec_accel_amount(delta_time, acceleration);
    let a1 = if proj + a0 > maxv {
        maxv - proj
    } else {
        a0
    };
    let r = spec_accelerate_vector(delta_time, input, rel, acceleration, max_velocity);
    if a1 <= 0 {
        assert(r.x == rel.x && r.z == rel.z);
    } else {
        // the clamp keeps the projected speed within the cap
        assert(a1 <= maxv - proj);
        assert(t * q + n * a1 <= n * maxv) by (nonlinear_arith)
            requires
                a1 <= maxv - proj,
                proj * n >= t * q,
                n >= 1,
        ;
        let ux = tdiv(input.x * a1, s);
        let uz = tdiv(input.y * a1, s);
        assert(r.x == rel.x + ux && r.z == rel.z + uz);
        lemma_tdiv_bounds(input.x * a1, s);
        lemma_tdiv_bounds(input.y * a1, s);
        let b = s * t + a1;
        assert(b >= 1);
        assert(abs_of(input.x * a1) == abs_of(input.x) * a1) by (nonlinear_arith)
            requires
                a1 >= 1,
        ;
        assert(abs_of(input.y * a1) == abs_of(input.y) * a1) by (nonlinear_arith)
            requires
                a1 >= 1,
        ;
        // componentwise: |r.x| * SCALE is at most |input.x| * b
        assert(s * abs_of(r.x) <= abs_of(input.x) * b) by (nonlinear_arith)
            requires
                r.x == rel.x + ux,
                rel.x == t * input.x,
                abs_of(ux) * s <= abs_of(input.x * a1),
                abs_of(input.x * a1) == abs_of(input.x) * a1,
                t >= 0,
                a1 >= 1,
                s >= 1,
                b == s * t + a1,
        ;
        assert(s * abs_of(r.z) <= abs_of(input.y) * b) by (nonlinear_arith)
            requires
                r.z == rel.z + uz,
                rel.z == t * input.y,
                abs_of(uz) * s <= abs_of(input.y * a1),
                abs_of(input.y * a1) == abs_of(input.y) * a1,
                t >= 0,
                a1 >= 1,
                s >= 1,
                b == s * t + a1,
        ;
        // squared: SCALE^2 * planar speed^2 is at most q * b^2
        lemma_component_square_bound(s, r.x, input.x, b);
        lemma_component_square_bound(s, r.z, input.y, b);
        assert((s * s) * (r.x * r.x + r.z * r.z) <= q * (b * b)) by (nonlinear_arith)
            requires
                (s * s) * (r.x * r.x) <= (input.x * input.x) * (b * b),
                (s * s) * (r.z * r.z) <= (input.y * input.y) * (b * b),
                q == input.x * input.x + input.y * input.y,
        ;
        // the main bound: q * b^2 is at most SCALE^2 * max^2
        lemma_parallel_main_bound(q, n, s, t, a1, maxv);
        assert((s * s) * (r.x * r.x + r.z * r.z) <= (s * s) * (maxv * maxv));
        assert(r.x * r.x + r.z * r.z <= maxv * maxv) by (nonlinear_arith)
            requires
                (s * s) * (r.x * r.x + r.z * r.z) <= (s * s) * (maxv * maxv),
                s >= 1,
        ;
    }
}

/// From a scaled componentwise bound `s * |c| <= |i| * b` follows the
/// squared bound `s^2 * c^2 <= i^2 * b^2`.
proof fn lemma_component_square_bound(s: int, c: int, i: int, b: int)
    requires
        1 <= s,
        1 <= b,
        s * abs_of(c) <= abs_of(i) * b,
    ensures
        (s * s) * (c * c) <= (i * i) * (b * b),
{
    let lhs = s * abs_of(c);
    let rhs = abs_of(i) * b;
    assert(lhs >= 0) by (nonlinear_arith)
        requires
            lhs == s * abs_of(c),
            s >= 1,
            abs_of(c) >= 0,
    ;
    assert(lhs * lhs <= rhs * rhs) by (nonlinear_arith)
        requires
            0 <= lhs <= rhs,
    ;
    assert(abs_of(c) * abs_of(c) == c * c) by (nonlinear_arith);
    assert(abs_of(i) * abs_of(i) == i * i) by (nonlinear_arith);
    assert(lhs * lhs == (s * s) * (c * c)) by (nonlinear_arith)
        requires
            lhs == s * abs_of(c),
            abs_of(c) * abs_of(c) == c * c,
    ;
    assert(rhs * rhs == (i * i) * (b * b)) by (nonlinear_arith)
        requires
            rhs == abs_of(i) * b,
            abs_of(i) * abs_of(i) == i * i,
    ;
}

/// The heart of the parallel-cap argument: once the clamp has bounded
/// `t * q + n * a1` by `n * max`, the squared gain stays within the cap.
proof fn lemma_parallel_main_bound(q: int, n: int, s: int, t: int, a1: int, maxv: int)
    requires
        1 <= n,
        n * n <= q,
        q <= s * s,
        1 <= s,
        0 <= t,
        1 <= a1,
        0 <= maxv,
        t * q + n * a1 <= n * maxv,
    ensures
        q * ((s * t + a1) * (s * t + a1)) <= (s * s) * (maxv * maxv),
{
    let b = s * t + a1;
    let c = n * maxv + t * (n * s - q);
    assert(q >= 1) by (nonlinear_arith)
        requires
            n * n <= q,
            n >= 1,
    ;
    assert(n * b <= c) by (nonlinear_arith)
        requires
            t * q + n * a1 <= n * maxv,
            b == s * t + a1,
            c == n * maxv + t * (n * s - q),
    ;
    assert(b >= 1);
    assert(n * b >= 1) by (nonlinear_arith)
        requires
            n >= 1,
            b >= 1,
    ;
    assert(q * ((n * b) * (n * b)) <= q * (c * c)) by (nonlinear_arith)
        requires
            0 < n * b,
            n * b <= c,
            q >= 1,
    ;
    if n * s <= q {
        assert(c <= n * maxv) by (nonlinear_arith)
            requires
                c == n * maxv + t * (n * s - q),
                t >= 0,
                n * s - q <= 0,
        ;
        assert(q * (c * c) <= q * ((n * maxv) * (n * maxv))) by (nonlinear_arith)
            requires
                0 <= c,
                c <= n * maxv,
                q >= 0,
        ;
        assert(q * ((n * maxv) * (n * maxv)) <= (s * s) * ((n * maxv) * (n * maxv))) by (nonlinear_arith)
            requires
                q <= s * s,
                0 <= n * maxv,
        ;
        assert(q * (b * b) <= (s * s) * (maxv * maxv)) by (nonlinear_arith)
            requires
                q * ((n * b) * (n * b)) <= (s * s) * ((n * maxv) * (n * maxv)),
                n >= 1,
                q >= 0,
        ;
    } else {
        let dd = n * s - q;
        assert(dd >= 1);
        // the clamp left at least one step of room: t * q is under n * max
        assert(t * q <= n * maxv - n) by (nonlinear_arith)
            requires
                t * q + n * a1 <= n * maxv,
                a1 >= 1,
                n >= 1,
        ;
        assert(t * q >= 0) by (nonlinear_arith)
            requires
                t >= 0,
                q >= 1,
        ;
        let e1 = (n * maxv) * (n * maxv);
        let e2 = (n * maxv) * (t * dd);
        let e3 = (t * dd) * (t * dd);
        // three termwise bounds of the expanded square
        assert(q * e1 <= (q * q) * (maxv * maxv)) by (nonlinear_arith)
            requires
                e1 == (n * maxv) * (n * maxv),
                n * n <= q,
                0 <= maxv,
                1 <= q,
        ;
        assert(q * e2 <= (q * (maxv * maxv)) * dd) by (nonlinear_arith)
            requires
                e2 == (n * maxv) * (t * dd),
                0 <= t * q <= n * maxv,
                n * n <= q,
                t >= 0,
                dd >= 1,
                maxv >= 0,
                n >= 1,
                q >= 1,
        ;
        assert(q * e3 <= (maxv * maxv) * (dd * dd)) by (nonlinear_arith)
            requires
                e3 == (t * dd) * (t * dd),
                0 <= t * q <= n * maxv,
                n * n <= q,
                t >= 0,
                dd >= 1,
                maxv >= 0,
                n >= 1,
                q >= 1,
        ;
        // expand both squares and add the termwise bounds
        assert(q * (c * c) == q * e1 + 2 * (q * e2) + q * e3) by (nonlinear_arith)
            requires
                c == n * maxv + t * dd,
                e1 == (n * maxv) * (n * maxv),
                e2 == (n * maxv) * (t * dd),
                e3 == (t * dd) * (t * dd),
        ;
        assert(((q + dd) * (q + dd)) * (maxv * maxv) == (q * q) * (maxv * maxv) + 2 * ((q * (maxv
            * maxv)) * dd) + (maxv * maxv) * (dd * dd)) by (nonlinear_arith);
        assert(q * (c * c) <= ((q + dd) * (q + dd)) * (maxv * maxv));
        assert((q + dd) == n * s);
        assert(((q + dd) * (q + dd)) * (maxv * maxv) == ((n * s) * (n * s)) * (maxv * maxv));
        assert(q * (b * b) <= (s * s) * (maxv * maxv)) by (nonlinear_arith)
            requires
                q * ((n * b) * (n * b)) <= ((n * s) * (n * s)) * (maxv * maxv),
                n >= 1,
                q >= 0,
        ;
    }
}

/// With a nonzero cap, the planar speed after the limit lies at or below
/// the cap, whether or not the rescaling fired.
pub proof fn lemma_limit_velocity_caps(v: V3, m: int)
    requires
        0 <= m,
    ensures
        ({
            let w = spec_limit_velocity(v, m);
            m != 0 ==> w.x * w.x + w.z * w.z <= m * m
        }),
{
    let s2 = v.x * v.x + v.z * v.z;
    assert(v.x * v.x >= 0) by (nonlinear_arith);
    assert(v.z * v.z >= 0) by (nonlinear_arith);
    if m != 0 && s2 > m * m {
        lemma_ceil_sqrt(s2);
        let r = ceil_sqrt(s2);
        assert(m * m >= 0) by (nonlinear_arith);
        assert(r >= 1);
        let ax = abs_of(v.x);
        let az = abs_of(v.z);
        let px = (ax * m) / r;
        let pz = (az * m) / r;
        assert(ax * m >= 0) by (nonlinear_arith)
            requires
                ax >= 0,
                m >= 0,
        ;
        assert(az * m >= 0) by (nonlinear_arith)
            requires
                az >= 0,
                m >= 0,
        ;
        lemma_tdiv_bounds(ax * m, r);
        lemma_tdiv_bounds(az * m, r);
        assert(px >= 0 && px * r <= ax * m);
        assert(pz >= 0 && pz * r <= az * m);
        let w = spec_limit_velocity(v, m);
        assert(w.x == sgn(v.x) * px && w.z == sgn(v.z) * pz);
        assert(w.x * w.x == px * px) by (nonlinear_arith)
            requires
                w.x == sgn(v.x) * px,
                sgn(v.x) == 1 || sgn(v.x) == -1 || (sgn(v.x) == 0 && abs_of(v.x) == 0),
                px >= 0,
                px * r <= abs_of(v.x) * m,
                r >= 1,
                m >= 0,
    ;
        assert(w.z * w.z == pz * pz) by (nonlinear_arith)
            requires
                w.z == sgn(v.z) * pz,
                sgn(v.z) == 1 || sgn(v.z) == -1 || (sgn(v.z) == 0 && abs_of(v.z) == 0),
                pz >= 0,
                pz * r <= abs_of(v.z) * m,
                r >= 1,
                m >= 0,
    ;
        // the rescaled planar speed is within the cap
        assert(px * px * (r * r) <= (ax * m) * (ax * m)) by (nonlinear_arith)
            requires
                0 <= px,
                1 <= r,
                px * r <= ax * m,
                0 <= ax * m,
        ;
        assert(pz * pz * (r * r) <= (az * m) * (az * m)) by (nonlinear_arith)
            requires
                0 <= pz,
                1 <= r,
                pz * r <= az * m,
                0 <= az * m,
        ;
        assert((ax * m) * (ax * m) == (ax * ax) * (m * m)) by (nonlinear_arith);
        assert((az * m) * (az * m) == (az * az) * (m * m)) by (nonlinear_arith);
        assert(ax * ax == v.x * v.x) by (nonlinear_arith)
            requires
                ax == abs_of(v.x),
        ;
        assert(az * az == v.z * v.z) by (nonlinear_arith)
            requires
                az == abs_of(v.z),
        ;
        assert(s2 <= r * r);
        assert((v.x * v.x) * (m * m) + (v.z * v.z) * (m * m) == s2 * (m * m)) by (nonlinear_arith)
            requires
                s2 == v.x * v.x + v.z * v.z,
        ;
        assert(s2 * (m * m) <= (r * r) * (m * m)) by (nonlinear_arith)
            requires
                s2 <= r * r,
                m * m >= 0,
        ;
        assert((px * px + pz * pz) * (r * r) <= (r * r) * (m * m)) by (nonlinear_arith)
            requires
                px * px * (r * r) <= (v.x * v.x) * (m * m),
                pz * pz * (r * r) <= (v.z * v.z) * (m * m),
                (v.x * v.x) * (m * m) + (v.z * v.z) * (m * m) <= (r * r) * (m * m),
        ;
        assert(px * px + pz * pz <= m * m) by (nonlinear_arith)
            requires
                (px * px + pz * pz) * (r * r) <= (r * r) * (m * m),
                r >= 1,
        ;
        assert(w.x * w.x + w.z * w.z <= m * m);
    }
}

/// Applying the planar speed limit twice gives the same velocity as
/// applying it once: the first pass already lands at or below the cap.
pub proof fn lemma_limit_velocity_idempotent(v: V3, m: int)
    requires
        0 <= m,
    ensures
        spec_limit_velocity(spec_limit_velocity(v, m), m) == spec_limit_velocity(v, m),
{
    lemma_limit_velocity_caps(v, m);
    let w = spec_limit_velocity(v, m);
    if m != 0 {
        assert(spec_limit_velocity(w, m) == w);
    }
}

/// The settings controlling how an entity moved by the
/// `BhopMovementSystem` behaves.
#[derive(Clone, Copy, Debug)]
pub struct BhopMovement3D {
    /// False: apply forces through acceleration. True: set the velocity.
    pub absolute: bool,
    /// Use world coordinates instead of the entity's local frame.
    pub absolute_axis: bool,
    /// Negate the velocity of an axis when the key opposite to the current
    /// motion is pressed: an instant stop, even at high speed.
    pub counter_impulse: bool,
    /// Acceleration while on the ground, in units per second squared.
    pub accelerate_ground: i64,
    /// Acceleration while in the air.
    pub accelerate_air: i64,
    /// The maximum ground velocity.
    pub max_velocity_ground: i64,
    /// The maximum air velocity.
    pub max_velocity_air: i64,
    /// Allow accelerating over the maximum velocity by strafing.
    pub allow_projection_acceleration: bool,
}

impl BhopMovement3D {
    /// Build a movement settings component; the world-axes and
    /// counter-impulse switches start off.
    pub fn new(
        absolute: bool,
        accelerate_ground: i64,
        accelerate_air: i64,
        max_velocity_ground: i64,
        max_velocity_air: i64,
        allow_projection_acceleration: bool,
    ) -> (r: BhopMovement3D)
        ensures
            r.absolute == absolute,
            !r.absolute_axis,
            !r.counter_impulse,
            r.accelerate_ground == accelerate_ground,
            r.accelerate_air == accelerate_air,
            r.max_velocity_ground == max_velocity_ground,
            r.max_velocity_air == max_velocity_air,
            r.allow_projection_acceleration == allow_projection_acceleration,
    {
        BhopMovement3D {
            absolute,
            absolute_axis: false,
            counter_impulse: false,
            accelerate_ground,
            accelerate_air,
            max_velocity_ground,
            max_velocity_air,
            allow_projection_acceleration,
        }
    }
}

/// Accelerations and speed caps within the range the arithmetic covers.
pub open spec fn movement_wf(m: BhopMovement3D) -> bool {
    &&& -crate::math::ACCEL_LIMIT <= m.accelerate_ground <= crate::math::ACCEL_LIMIT
    &&& -crate::math::ACCEL_LIMIT <= m.accelerate_air <= crate::math::ACCEL_LIMIT
    &&& 0 <= m.max_velocity_ground <= crate::math::VEC_LIMIT
    &&& 0 <= m.max_velocity_air <= crate::math::VEC_LIMIT
}

/// The new local-frame velocity of one entity: the grounded or airborne
/// settings are picked, then either the planar velocity is set outright
/// (absolute mode) or it is counter-impulsed, accelerated and capped.
pub open spec fn spec_bhop_local(
    m: BhopMovement3D,
    on_ground: bool,
    input: V2,
    rel: V3,
    dt: int,
) -> V3 {
    let acceleration = if on_ground {
        m.accelerate_ground
    } else {
        m.accelerate_air
    };
    let maxv = if on_ground {
        m.max_velocity_ground
    } else {
        m.max_velocity_air
    };
    if m.absolute {
        V3 {
            x: tdiv(input.x * acceleration, SCALE as int),
            y: rel.y,
            z: tdiv(input.y * acceleration, SCALE as int),
        }
    } else {
        let braked = if m.counter_impulse {
            spec_counter_impulse(input, rel)
        } else {
            rel
        };
        let accelerated = spec_accelerate_vector(dt, input, braked, acceleration as int, maxv as int);
        if !m.allow_projection_acceleration {
            spec_limit_velocity(accelerated, maxv as int)
        } else {
            accelerated
        }
    }
}

/// The new world-frame velocity of one entity: the velocity is carried
/// into the frame the axes are read in, moved, and carried back.
pub open spec fn spec_bhop_step(
    m: BhopMovement3D,
    on_ground: bool,
    rotation: Rotation2D,
    input: V2,
    vel: V3,
    dt: int,
) -> V3 {
    if m.absolute_axis {
        spec_bhop_local(m, on_ground, input, vel, dt)
    } else {
        rotation.spec_rotate(spec_bhop_local(m, on_ground, input, rotation.spec_rotate_inv(vel), dt))
    }
}

/// With the hard limit on (projection acceleration disallowed) and a
/// nonzero cap, a relative-mode tick never ends over the cap: whatever
/// strafing gained, the limit takes back.
pub proof fn lemma_bhop_local_capped(
    m: BhopMovement3D,
    on_ground: bool,
    input: V2,
    rel: V3,
    dt: int,
)
    requires
        !m.absolute,
        !m.allow_projection_acceleration,
        movement_wf(m),
    ensures
        ({
            let maxv = if on_ground {
                m.max_velocity_ground
            } else {
                m.max_velocity_air
            };
            let w = spec_bhop_local(m, on_ground, input, rel, dt);
            maxv != 0 ==> w.x * w.x + w.z * w.z <= (maxv as int) * (maxv as int)
        }),
{
    let acceleration = if on_ground {
        m.accelerate_ground
    } else {
        m.accelerate_air
    };
    let maxv = if on_ground {
        m.max_velocity_ground
    } else {
        m.max_velocity_air
    };
    let braked = if m.counter_impulse {
        spec_counter_impulse(input, rel)
    } else {
        rel
    };
    let accelerated = spec_accelerate_vector(dt, input, braked, acceleration as int, maxv as int);
    lemma_limit_velocity_caps(accelerated, maxv as int);
}

/// One entity as the planar motion stage sees it: settings, ground state,
/// orientation, and the next-frame velocity to overwrite.
pub struct BhopBody {
    pub movement: BhopMovement3D,
    pub grounded: Grounded,
    pub rotation: Rotation2D,
    pub velocity: Vec3,
}

/// Turns the 2D input axes into per-entity velocity changes, with
/// projection-capped acceleration and optional braking and capping.
pub struct BhopMovementSystem;

impl BhopMovementSystem {
    /// Move one entity for this tick.
    pub fn bhop_tick(&self, body: &mut BhopBody, input: Vec2, dt: i64)
        requires
            movement_wf(old(body).movement),
            old(body).rotation.wf(),
            v3_bounded(old(body).velocity@, crate::math::VEC_LIMIT as int),
            v2_bounded(input@, SCALE as int),
            0 <= dt <= crate::math::DT_LIMIT,
        ensures
            final(body).velocity@ == spec_bhop_step(
                old(body).movement,
                old(body).grounded.ground,
                old(body).rotation,
                input@,
                old(body).velocity@,
                dt as int,
            ),
            final(body).movement == old(body).movement,
            final(body).grounded == old(body).grounded,
            final(body).rotation == old(body).rotation,
    {
        let on_ground = body.grounded.ground;
        let acceleration = if on_ground {
            body.movement.accelerate_ground
        } else {
            body.movement.accelerate_air
        };
        let maxv = if on_ground {
            body.movement.max_velocity_ground
        } else {
            body.movement.max_velocity_air
        };
        let rel = if body.movement.absolute_axis {
            body.velocity
        } else {
            body.rotation.rotate_inv(&body.velocity)
        };
        let moved = if body.movement.absolute {
            proof {
                lemma_mul_bounds(
                    input.x as int,
                    acceleration as int,
                    SCALE as int,
                    crate::math::ACCEL_LIMIT as int,
                );
                lemma_mul_bounds(
                    input.y as int,
                    acceleration as int,
                    SCALE as int,
                    crate::math::ACCEL_LIMIT as int,
                );
                lemma_tdiv_bounds(input.x as int * acceleration as int, SCALE as int);
                lemma_tdiv_bounds(input.y as int * acceleration as int, SCALE as int);
            }
            let vx = crate::math::tdiv_i128(
                (input.x as i128) * (acceleration as i128),
                SCALE as i128,
            );
            let vz = crate::math::tdiv_i128(
                (input.y as i128) * (acceleration as i128),
                SCALE as i128,
            );
            Vec3 { x: vx as i64, y: rel.y, z: vz as i64 }
        } else {
            let braked = if body.movement.counter_impulse {
                counter_impulse(input, rel)
            } else {
                rel
            };
            proof {
                assert(v3_bounded(braked@, 2 * crate::math::VEC_LIMIT as int));
            }
            let accelerated = accelerate_vector(dt, input, braked, acceleration, maxv);
            if !body.movement.allow_projection_acceleration {
                limit_velocity(accelerated, maxv)
            } else {
                accelerated
            }
        };
        let out = if body.movement.absolute_axis {
            moved
        } else {
            body.rotation.rotate(&moved)
        };
        body.velocity = out;
    }

    /// Move every entity for this tick. With no input (both axes zero)
    /// the whole stage is skipped and nothing moves.
    pub fn run(&self, bodies: &mut Vec<BhopBody>, input: Vec2, dt: i64)
        requires
            v2_bounded(input@, SCALE as int),
            0 <= dt <= crate::math::DT_LIMIT,
            input@.x != 0 || input@.y != 0 ==> forall|i: int|
                0 <= i < old(bodies)@.len() ==> {
                    let b = #[trigger] old(bodies)@[i];
                    movement_wf(b.movement) && b.rotation.wf() && v3_bounded(
                        b.velocity@,
                        crate::math::VEC_LIMIT as int,
                    )
                },
        ensures
            final(bodies)@.len() == old(bodies)@.len(),
            input@.x == 0 && input@.y == 0 ==> final(bodies)@ == old(bodies)@,
            input@.x != 0 || input@.y != 0 ==> forall|i: int|
                0 <= i < old(bodies)@.len() ==> {
                    let b = #[trigger] old(bodies)@[i];
                    let a = final(bodies)@[i];
                    a.velocity@ == spec_bhop_step(
                        b.movement,
                        b.grounded.ground,
                        b.rotation,
                        input@,
                        b.velocity@,
                        dt as int,
                    ) && a.movement == b.movement && a.grounded == b.grounded && a.rotation
                        == b.rotation
                },
    {
        if input.x == 0 && input.y == 0 {
            return ;
        }
        let ghost orig = bodies@;
        let mut idx: usize = 0;
        while idx < bodies.len()
            invariant
                0 <= idx <= orig.len(),
                bodies@.len() == orig.len(),
                v2_bounded(input@, SCALE as int),
                0 <= dt <= crate::math::DT_LIMIT,
                forall|i: int|
                    0 <= i < orig.len() ==> {
                        let b = #[trigger] orig[i];
                        movement_wf(b.movement) && b.rotation.wf() && v3_bounded(
                            b.velocity@,
                            crate::math::VEC_LIMIT as int,
                        )
                    },
                forall|i: int| idx <= i < orig.len() ==> bodies@[i] == #[trigger] orig[i],
                forall|i: int|
                    0 <= i < idx ==> {
                        let b = #[trigger] orig[i];
                        let a = bodies@[i];
                        a.velocity@ == spec_bhop_step(
                            b.movement,
                            b.grounded.ground,
                            b.rotation,
                            input@,
                            b.velocity@,
                            dt as int,
                        ) && a.movement == b.movement && a.grounded == b.grounded && a.rotation
                            == b.rotation
                    },
            decreases orig.len() - idx,
        {
            proof {
                assert(bodies@[idx as int] == orig[idx as int]);
            }
            let body = &mut bodies[idx];
            self.bhop_tick(body, input, dt);
            idx += 1;
        }
    }
}

/// Tag for entities moved by the simple first-person movement system.
#[derive(Clone, Copy, Debug)]
pub struct FpsMovement {
    /// The movement speed in units per second.
    pub speed: i64,
}

impl FpsMovement {
    /// Build a movement tag.
    pub fn new(speed: i64) -> (r: FpsMovement)
        ensures
            r.speed == speed,
    {
        FpsMovement { speed }
    }
}

/// The force one tick adds: the input axes carried into world space,
/// normalized, and scaled by `speed * dt`. A direction that rounds to zero
/// adds no force.
pub open spec fn spec_fps_force(rotation: Rotation2D, input: V2, speed: int, dt: int) -> V3 {
    let w = rotation.spec_rotate(V3 { x: input.x, y: 0int, z: input.y });
    let m2 = w.x * w.x + w.z * w.z;
    if m2 == 0 {
        V3 { x: 0int, y: 0int, z: 0int }
    } else {
        let nn = floor_sqrt(m2);
        let f = tdiv(speed * dt, SCALE as int);
        V3 { x: tdiv(w.x * f, nn), y: 0int, z: tdiv(w.z * f, nn) }
    }
}

/// One entity as the simple movement stage sees it: its tag, orientation,
/// and force accumulator.
pub struct FpsBody {
    pub tag: FpsMovement,
    pub rotation: Rotation2D,
    pub force: Vec3,
}

/// Adds a force along the oriented input direction, scaled by the tag's
/// speed and the tick length.
pub struct FpsMovementSystemSimple;

impl FpsMovementSystemSimple {
    /// Add this tick's movement force to one entity's accumulator.
    pub fn fps_tick(&self, body: &mut FpsBody, input: Vec2, dt: i64)
        requires
            old(body).rotation.wf(),
            v2_bounded(input@, SCALE as int),
            v3_bounded(old(body).force@, crate::math::VEC_LIMIT as int),
            -crate::math::VEC_LIMIT <= old(body).tag.speed <= crate::math::VEC_LIMIT,
            0 <= dt <= crate::math::DT_LIMIT,
        ensures
            ({
                let add = spec_fps_force(
                    old(body).rotation,
                    input@,
                    old(body).tag.speed as int,
                    dt as int,
                );
                final(body).force@.x == old(body).force@.x + add.x && final(body).force@.y == old(
                    body,
                ).force@.y + add.y && final(body).force@.z == old(body).force@.z + add.z
            }),
            final(body).tag == old(body).tag,
            final(body).rotation == old(body).rotation,
    {
        let dir = Vec3 { x: input.x, y: 0, z: input.y };
        let w = body.rotation.rotate(&dir);
        proof {
            lemma_mul_bounds(w.x as int, w.x as int, 2 * SCALE as int, 2 * SCALE as int);
            lemma_mul_bounds(w.z as int, w.z as int, 2 * SCALE as int, 2 * SCALE as int);
            assert((w.x as int) * (w.x as int) >= 0) by (nonlinear_arith);
            assert((w.z as int) * (w.z as int) >= 0) by (nonlinear_arith);
        }
        let m2: i128 = (w.x as i128) * (w.x as i128) + (w.z as i128) * (w.z as i128);
        if m2 == 0 {
            return ;
        }
        proof {
            lemma_floor_sqrt(m2 as int);
            assert(floor_sqrt(m2 as int) >= 1) by (nonlinear_arith)
                requires
                    crate::math::is_floor_sqrt(m2 as int, floor_sqrt(m2 as int)),
                    m2 as int >= 1,
            ;
        }
        let nn = crate::math::floor_sqrt_u128(m2 as u128) as i128;
        proof {
            lemma_mul_bounds(
                body.tag.speed as int,
                dt as int,
                crate::math::VEC_LIMIT as int,
                crate::math::DT_LIMIT as int,
            );
            lemma_tdiv_bounds(body.tag.speed as int * dt as int, SCALE as int);
        }
        let f: i128 = crate::math::tdiv_i128(
            (body.tag.speed as i128) * (dt as i128),
            SCALE as i128,
        );
        proof {
            assert(abs_of(w.x as int) * abs_of(w.x as int) == (w.x as int) * (w.x as int))
                by (nonlinear_arith);
            assert(abs_of(w.z as int) * abs_of(w.z as int) == (w.z as int) * (w.z as int))
                by (nonlinear_arith);
            // each planar component is within the direction's magnitude
            assert(abs_of(w.x as int) <= nn as int) by (nonlinear_arith)
                requires
                    crate::math::is_floor_sqrt(m2 as int, nn as int),
                    (w.x as int) * (w.x as int) <= m2 as int,
                    abs_of(w.x as int) * abs_of(w.x as int) == (w.x as int) * (w.x as int),
            ;
            assert(abs_of(w.z as int) <= nn as int) by (nonlinear_arith)
                requires
                    crate::math::is_floor_sqrt(m2 as int, nn as int),
                    (w.z as int) * (w.z as int) <= m2 as int,
                    abs_of(w.z as int) * abs_of(w.z as int) == (w.z as int) * (w.z as int),
            ;
            lemma_mul_bounds(w.x as int, f as int, abs_of(w.x as int), abs_of(f as int));
            lemma_mul_bounds(w.z as int, f as int, abs_of(w.z as int), abs_of(f as int));
            lemma_tdiv_bounds(w.x as int * f as int, nn as int);
            lemma_tdiv_bounds(w.z as int * f as int, nn as int);
            // scaled by f / nn, each component stays within |f|
            assert(abs_of(tdiv(w.x as int * f as int, nn as int)) * (nn as int) <= abs_of(
                f as int,
            ) * (nn as int)) by (nonlinear_arith)
                requires
                    abs_of(tdiv(w.x as int * f as int, nn as int)) * (nn as int) <= abs_of(
                        w.x as int * f as int,
                    ),
                    abs_of(w.x as int * f as int) <= abs_of(w.x as int) * abs_of(f as int),
                    abs_of(w.x as int) <= nn as int,
                    abs_of(f as int) >= 0,
            ;
            assert(abs_of(tdiv(w.z as int * f as int, nn as int)) * (nn as int) <= abs_of(
                f as int,
            ) * (nn as int)) by (nonlinear_arith)
                requires
                    abs_of(tdiv(w.z as int * f as int, nn as int)) * (nn as int) <= abs_of(
                        w.z as int * f as int,
                    ),
                    abs_of(w.z as int * f as int) <= abs_of(w.z as int) * abs_of(f as int),
                    abs_of(w.z as int) <= nn as int,
                    abs_of(f as int) >= 0,
            ;
            assert(abs_of(tdiv(w.x as int * f as int, nn as int)) <= abs_of(f as int))
                by (nonlinear_arith)
                requires
                    abs_of(tdiv(w.x as int * f as int, nn as int)) * (nn as int) <= abs_of(
                        f as int,
                    ) * (nn as int),
                    nn as int >= 1,
            ;
            assert(abs_of(tdiv(w.z as int * f as int, nn as int)) <= abs_of(f as int))
                by (nonlinear_arith)
                requires
                    abs_of(tdiv(w.z as int * f as int, nn as int)) * (nn as int) <= abs_of(
                        f as int,
                    ) * (nn as int),
                    nn as int >= 1,
            ;
        }
        proof {
            assert(abs_of(f as int) <= 100_000_000_000_000_000int);
            lemma_mul_bounds(w.x as int, f as int, 2 * SCALE as int, 100_000_000_000_000_000int);
            lemma_mul_bounds(w.z as int, f as int, 2 * SCALE as int, 100_000_000_000_000_000int);
        }
        let fx: i128 = crate::math::tdiv_i128((w.x as i128) * f, nn);
        let fz: i128 = crate::math::tdiv_i128((w.z as i128) * f, nn);
        body.force = Vec3 {
            x: body.force.x + (fx as i64),
            y: body.force.y,
            z: body.force.z + (fz as i64),
        };
    }

    /// Add this tick's movement force to every entity. With no input the
    /// stage is skipped.
    pub fn run(&self, bodies: &mut Vec<FpsBody>, input: Vec2, dt: i64)
        requires
            v2_bounded(input@, SCALE as int),
            0 <= dt <= crate::math::DT_LIMIT,
            input@.x != 0 || input@.y != 0 ==> forall|i: int|
                0 <= i < old(bodies)@.len() ==> {
                    let b = #[trigger] old(bodies)@[i];
                    b.rotation.wf() && v3_bounded(b.force@, crate::math::VEC_LIMIT as int)
                        && -crate::math::VEC_LIMIT <= b.tag.speed <= crate::math::VEC_LIMIT
                },
        ensures
            final(bodies)@.len() == old(bodies)@.len(),
            input@.x == 0 && input@.y == 0 ==> final(bodies)@ == old(bodies)@,
            input@.x != 0 || input@.y != 0 ==> forall|i: int|
                0 <= i < old(bodies)@.len() ==> {
                    let b = #[trigger] old(bodies)@[i];
                    let a = final(bodies)@[i];
                    let add = spec_fps_force(b.rotation, input@, b.tag.speed as int, dt as int);
                    a.force@.x == b.force@.x + add.x && a.force@.y == b.force@.y + add.y
                        && a.force@.z == b.force@.z + add.z && a.tag == b.tag && a.rotation
                        == b.rotation
                },
    {
        if input.x == 0 && input.y == 0 {
            return ;
        }
        let ghost orig = bodies@;
        let mut idx: usize = 0;
        while idx < bodies.len()
            invariant
                0 <= idx <= orig.len(),
                bodies@.len() == orig.len(),
                v2_bounded(input@, SCALE as int),
                0 <= dt <= crate::math::DT_LIMIT,
                forall|i: int|
                    0 <= i < orig.len() ==> {
                        let b = #[trigger] orig[i];
                        b.rotation.wf() && v3_bounded(b.force@, crate::math::VEC_LIMIT as int)
                            && -crate::math::VEC_LIMIT <= b.tag.speed <= crate::math::VEC_LIMIT
                    },
                forall|i: int| idx <= i < orig.len() ==> bodies@[i] == #[trigger] orig[i],
                forall|i: int|
                    0 <= i < idx ==> {
                        let b = #[trigger] orig[i];
                        let a = bodies@[i];
                        let add = spec_fps_force(b.rotation, input@, b.tag.speed as int, dt as int);
                        a.force@.x == b.force@.x + add.x && a.force@.y == b.force@.y + add.y
                            && a.force@.z == b.force@.z + add.z && a.tag == b.tag && a.rotation
                            == b.rotation
                    },
            decreases orig.len() - idx,
        {
            proof {
                assert(bodies@[idx as int] == orig[idx as int]);
            }
            let body = &mut bodies[idx];
            self.fps_tick(body, input, dt);
            idx += 1;
        }
    }
}

} // verus!
