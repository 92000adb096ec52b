//! Speed-limiting stage: clamps every agent's velocity magnitude into
//! `[min_speed, max_speed]`, up to fixed-point rounding, and replaces a
//! zero velocity by one of magnitude exactly `min_speed`.

use vstd::prelude::*;
use crate::agent::Agent;
use crate::math::{isqrt_u128, lemma_comp_le_sqrt, lemma_div_brackets, lemma_sq_expand, lemma_sq_le, lemma_sq_lt, scale_i64, scaled, sqrt_floor};
use crate::params::{SPEED_LIMIT, VEL_STAGE_LIMIT};
use crate::vec2::Vec2;

verus! {

/// Both components scaled by `t / s`, truncated toward zero: the
/// fixed-point form of `normalize(v) * t` for a vector of magnitude `s`.
pub open spec fn scale_vec_spec(v: Vec2, t: int, s: int) -> Vec2 {
    Vec2 {
        x: scaled(v.x as int, t, s) as i64,
        y: scaled(v.y as int, t, s) as i64,
    }
}

/// What the speed-limiting stage does to one velocity. A vector whose
/// floor-square-root speed `s` exceeds `max_speed` is scaled by
/// `max_speed / s`; one slower than `min_speed` is scaled by
/// `min_speed / s` and, should rounding at tiny speeds overshoot the
/// upper bound, scaled back down; the zero vector becomes the fixed
/// direction `(min_speed, 0)`.
pub open spec fn spec_limit(v: Vec2, min_speed: int, max_speed: int) -> Vec2 {
    let m = v.mag_sq();
    if m == 0 {
        Vec2 { x: min_speed as i64, y: 0 }
    } else {
        let s = sqrt_floor(m);
        if s > max_speed {
            scale_vec_spec(v, max_speed, s)
        } else if s < min_speed {
            let w = scale_vec_spec(v, min_speed, s);
            let s1 = sqrt_floor(w.mag_sq());
            if s1 > max_speed {
                scale_vec_spec(w, max_speed, s1)
            } else {
                w
            }
        } else {
            v
        }
    }
}

/// Squares are nonnegative.
pub proof fn lemma_sq_nonneg(a: int)
    by (nonlinear_arith)
    ensures
        a * a >= 0,
        a * a == vstd::math::abs(a) * vstd::math::abs(a),
{
}

/// Scaling is sign-symmetric: the magnitude of a scaled component is the
/// scaled magnitude.
pub proof fn lemma_scaled_abs(a: int, t: int, s: int)
    requires
        0 <= t,
        0 < s,
    ensures
        vstd::math::abs(scaled(a, t, s)) == (vstd::math::abs(a) * t) / s,
{
    let aa = vstd::math::abs(a) as int;
    assert(aa * t >= 0) by (nonlinear_arith)
        requires
            0 <= aa,
            0 <= t,
    ;
    lemma_div_brackets(aa * t, s);
    if a >= 0 {
        assert(a * t == aa * t);
    } else {
        assert(a * t == -(aa * t)) by (nonlinear_arith)
            requires
                a < 0,
                aa == -a,
        ;
    }
}

/// Scaling a vector of floor-square-root speed `s` down to a target
/// `t < s` yields a squared magnitude of at most `t * t + 2 * t - 1`:
/// the clamp never overshoots the target by more than rounding.
pub proof fn lemma_scale_upper(xx: int, yy: int, t: int, s: int, px: int, py: int)
    requires
        0 <= xx <= s,
        0 <= yy <= s,
        1 <= t,
        t + 1 <= s,
        s * s <= xx * xx + yy * yy,
        xx * xx + yy * yy < (s + 1) * (s + 1),
        px == (xx * t) / s,
        py == (yy * t) / s,
    ensures
        px * px + py * py <= t * t + 2 * t - 1,
{
    lemma_div_brackets(xx * t, s);
    lemma_div_brackets(yy * t, s);
    assert(xx * t >= 0 && yy * t >= 0) by (nonlinear_arith)
        requires
            0 <= xx,
            0 <= yy,
            0 <= t,
    ;
    assert(xx * xx + yy * yy <= s * s + 2 * s) by (nonlinear_arith)
        requires
            xx * xx + yy * yy < (s + 1) * (s + 1),
    ;
    lemma_sq_le(px * s, xx * t);
    lemma_sq_le(py * s, yy * t);
    assert((px * px) * (s * s) <= (xx * xx) * (t * t)) by (nonlinear_arith)
        requires
            (px * s) * (px * s) <= (xx * t) * (xx * t),
    ;
    assert((py * py) * (s * s) <= (yy * yy) * (t * t)) by (nonlinear_arith)
        requires
            (py * s) * (py * s) <= (yy * t) * (yy * t),
    ;
    assert((px * px + py * py) * (s * s) == (px * px) * (s * s) + (py * py) * (s * s))
        by (nonlinear_arith);
    assert((xx * xx + yy * yy) * (t * t) == (xx * xx) * (t * t) + (yy * yy) * (t * t))
        by (nonlinear_arith);
    assert((xx * xx + yy * yy) * (t * t) <= (s * s + 2 * s) * (t * t)) by (nonlinear_arith)
        requires
            xx * xx + yy * yy <= s * s + 2 * s,
            0 <= t,
    ;
    if px * px + py * py >= t * t + 2 * t {
        assert((t * t + 2 * t) * (s * s) <= (px * px + py * py) * (s * s)) by (nonlinear_arith)
            requires
                t * t + 2 * t <= px * px + py * py,
        ;
        assert(false) by (nonlinear_arith)
            requires
                (t * t + 2 * t) * (s * s) <= (s * s + 2 * s) * (t * t),
                1 <= t,
                t + 1 <= s,
        ;
    }
}

/// Scaling a vector of floor-square-root speed `s` to a target `t`
/// yields a squared magnitude of at least `t * t - 4 * t - 1`: the
/// clamp never undershoots the target by more than rounding.
pub proof fn lemma_scale_lower(xx: int, yy: int, t: int, s: int, px: int, py: int)
    requires
        0 <= xx,
        0 <= yy,
        1 <= t,
        1 <= s,
        s * s <= xx * xx + yy * yy,
        px == (xx * t) / s,
        py == (yy * t) / s,
        px <= t,
        py <= t,
    ensures
        px * px + py * py >= t * t - 4 * t - 1,
{
    lemma_div_brackets(xx * t, s);
    lemma_div_brackets(yy * t, s);
    assert(xx * t >= 0 && yy * t >= 0) by (nonlinear_arith)
        requires
            0 <= xx,
            0 <= yy,
            0 <= t,
    ;
    lemma_sq_lt(xx * t, (px + 1) * s);
    lemma_sq_lt(yy * t, (py + 1) * s);
    assert((xx * xx) * (t * t) < ((px + 1) * (px + 1)) * (s * s)) by (nonlinear_arith)
        requires
            (xx * t) * (xx * t) < ((px + 1) * s) * ((px + 1) * s),
    ;
    assert((yy * yy) * (t * t) < ((py + 1) * (py + 1)) * (s * s)) by (nonlinear_arith)
        requires
            (yy * t) * (yy * t) < ((py + 1) * s) * ((py + 1) * s),
    ;
    assert((xx * xx + yy * yy) * (t * t) == (xx * xx) * (t * t) + (yy * yy) * (t * t))
        by (nonlinear_arith);
    assert(((px + 1) * (px + 1) + (py + 1) * (py + 1)) * (s * s)
        == ((px + 1) * (px + 1)) * (s * s) + ((py + 1) * (py + 1)) * (s * s)) by (nonlinear_arith);
    assert((s * s) * (t * t) <= (xx * xx + yy * yy) * (t * t)) by (nonlinear_arith)
        requires
            s * s <= xx * xx + yy * yy,
            0 <= t,
    ;
    assert(t * t < (px + 1) * (px + 1) + (py + 1) * (py + 1)) by (nonlinear_arith)
        requires
            (s * s) * (t * t) < ((px + 1) * (px + 1) + (py + 1) * (py + 1)) * (s * s),
            1 <= s,
    ;
    assert((px + 1) * (px + 1) + (py + 1) * (py + 1)
        == px * px + py * py + 2 * px + 2 * py + 2) by (nonlinear_arith);
}

/// Exec form of `scale_vec_spec`, with componentwise bound `t`.
fn scale_vec2(v: Vec2, t: i64, s: i64) -> (r: Vec2)
    requires
        0 <= t <= SPEED_LIMIT,
        0 < s <= crate::math::SPAN,
        vstd::math::abs(v.x as int) <= s,
        vstd::math::abs(v.y as int) <= s,
    ensures
        r == scale_vec_spec(v, t as int, s as int),
        vstd::math::abs(r.x as int) <= t,
        vstd::math::abs(r.y as int) <= t,
        r.x as int == scaled(v.x as int, t as int, s as int),
        r.y as int == scaled(v.y as int, t as int, s as int),
{
    let x = scale_i64(v.x, t, s);
    let y = scale_i64(v.y, t, s);
    Vec2 { x, y }
}

/// Clamp one velocity into the admitted speed band.
///
/// The returned vector equals `spec_limit`, its components are bounded
/// by `max_speed`, and its squared magnitude lies within rounding slack
/// of the band `[min_speed^2, max_speed^2]`; an exactly in-band vector
/// is returned unchanged, and the zero vector becomes `(min_speed, 0)`.
pub fn limit_velocity(v: Vec2, min_speed: i64, max_speed: i64) -> (r: Vec2)
    requires
        0 < min_speed <= max_speed,
        max_speed <= SPEED_LIMIT,
        v.within(VEL_STAGE_LIMIT as int),
    ensures
        r == spec_limit(v, min_speed as int, max_speed as int),
        r.within(max_speed as int),
        r.mag_sq() <= max_speed * max_speed + 2 * max_speed,
        r.mag_sq() + 4 * min_speed + 1 >= min_speed * min_speed,
        min_speed <= sqrt_floor(v.mag_sq()) <= max_speed ==> r == v,
        v == (Vec2 { x: 0i64, y: 0i64 }) ==> r == (Vec2 { x: min_speed, y: 0i64 }),
{
    proof {
        lemma_sq_nonneg(v.x as int);
        lemma_sq_nonneg(v.y as int);
        lemma_sq_le(vstd::math::abs(v.x as int) as int, VEL_STAGE_LIMIT as int);
        lemma_sq_le(vstd::math::abs(v.y as int) as int, VEL_STAGE_LIMIT as int);
        assert((VEL_STAGE_LIMIT as int) * (VEL_STAGE_LIMIT as int)
            < 0x4000_0000_0000_0000_0000_0000_0000_0000) by (nonlinear_arith);
    }
    let xx: i128 = (v.x as i128) * (v.x as i128);
    let yy: i128 = (v.y as i128) * (v.y as i128);
    let m: u128 = (xx + yy) as u128;
    proof {
        assert(m as int == v.mag_sq());
    }
    if m == 0 {
        proof {
            if v.x != 0 {
                lemma_sq_lt(0, vstd::math::abs(v.x as int) as int);
            }
            if v.y != 0 {
                lemma_sq_lt(0, vstd::math::abs(v.y as int) as int);
            }
            lemma_sq_le(min_speed as int, max_speed as int);
        }
        return Vec2 { x: min_speed, y: 0 };
    }
    proof {
        // A nonzero squared magnitude means a nonzero vector.
        if v.x == 0 && v.y == 0 {
            assert((v.x as int) * (v.x as int) + (v.y as int) * (v.y as int) == 0)
                by (nonlinear_arith)
                requires
                    v.x as int == 0,
                    v.y as int == 0,
            ;
            assert(false);
        }
    }
    let s128 = isqrt_u128(m);
    proof {
        // s fits comfortably in i64: s * s <= m <= 2 * VEL_STAGE_LIMIT^2.
        assert(s128 as int <= 2 * (VEL_STAGE_LIMIT as int)) by (nonlinear_arith)
            requires
                s128 * s128 <= m,
                m as int <= 2 * ((VEL_STAGE_LIMIT as int) * (VEL_STAGE_LIMIT as int)),
        ;
    }
    let s = s128 as i64;
    let ax: i64 = if v.x >= 0 { v.x } else { -v.x };
    let ay: i64 = if v.y >= 0 { v.y } else { -v.y };
    proof {
        lemma_comp_le_sqrt(ax as int, s as int, m as int);
        lemma_comp_le_sqrt(ay as int, s as int, m as int);
    }
    if s > max_speed {
        let r = scale_vec2(v, max_speed, s);
        proof {
            lemma_scaled_abs(v.x as int, max_speed as int, s as int);
            lemma_scaled_abs(v.y as int, max_speed as int, s as int);
            lemma_sq_nonneg(r.x as int);
            lemma_sq_nonneg(r.y as int);
            let px = vstd::math::abs(r.x as int) as int;
            let py = vstd::math::abs(r.y as int) as int;
            lemma_scale_upper(ax as int, ay as int, max_speed as int, s as int, px, py);
            lemma_scale_lower(ax as int, ay as int, max_speed as int, s as int, px, py);
            lemma_band_floor_mono(min_speed as int, max_speed as int);
        }
        return r;
    }
    if s < min_speed {
        let w = scale_vec2(v, min_speed, s);
        proof {
            lemma_scaled_abs(v.x as int, min_speed as int, s as int);
            lemma_scaled_abs(v.y as int, min_speed as int, s as int);
            lemma_sq_nonneg(w.x as int);
            lemma_sq_nonneg(w.y as int);
            let px = vstd::math::abs(w.x as int) as int;
            let py = vstd::math::abs(w.y as int) as int;
            lemma_scale_lower(ax as int, ay as int, min_speed as int, s as int, px, py);
            lemma_sq_le(px as int, SPEED_LIMIT as int);
            lemma_sq_le(py as int, SPEED_LIMIT as int);
            assert((SPEED_LIMIT as int) * (SPEED_LIMIT as int)
                < 0x4000_0000_0000_0000_0000_0000_0000_0000) by (nonlinear_arith);
        }
        let wxx: i128 = (w.x as i128) * (w.x as i128);
        let wyy: i128 = (w.y as i128) * (w.y as i128);
        let m1: u128 = (wxx + wyy) as u128;
        proof {
            assert(m1 as int == w.mag_sq());
        }
        let s1_128 = isqrt_u128(m1);
        proof {
            assert(s1_128 as int <= 2 * (SPEED_LIMIT as int)) by (nonlinear_arith)
                requires
                    s1_128 * s1_128 <= m1,
                    m1 as int <= 2 * ((SPEED_LIMIT as int) * (SPEED_LIMIT as int)),
            ;
        }
        let s1 = s1_128 as i64;
        if s1 > max_speed {
            let awx: i64 = if w.x >= 0 { w.x } else { -w.x };
            let awy: i64 = if w.y >= 0 { w.y } else { -w.y };
            proof {
                lemma_comp_le_sqrt(awx as int, s1 as int, m1 as int);
                lemma_comp_le_sqrt(awy as int, s1 as int, m1 as int);
            }
            let r = scale_vec2(w, max_speed, s1);
            proof {
                lemma_scaled_abs(w.x as int, max_speed as int, s1 as int);
                lemma_scaled_abs(w.y as int, max_speed as int, s1 as int);
                lemma_sq_nonneg(r.x as int);
                lemma_sq_nonneg(r.y as int);
                let px = vstd::math::abs(r.x as int) as int;
                let py = vstd::math::abs(r.y as int) as int;
                lemma_scale_upper(awx as int, awy as int, max_speed as int, s1 as int, px, py);
                lemma_scale_lower(awx as int, awy as int, max_speed as int, s1 as int, px, py);
                lemma_band_floor_mono(min_speed as int, max_speed as int);
            }
            return r;
        }
        proof {
            // s1 <= max_speed: the scaled vector is already inside the band.
            lemma_sq_le(s1 as int + 1, max_speed as int + 1);
            lemma_sq_expand(max_speed as int);
        }
        return w;
    }
    proof {
        lemma_sq_le(s as int + 1, max_speed as int + 1);
        lemma_sq_expand(max_speed as int);
        lemma_sq_le(min_speed as int, s as int);
    }
    v
}

/// Rounding slack around `max_speed` stays above the slack band around a
/// smaller `min_speed`.
proof fn lemma_band_floor_mono(min_speed: int, max_speed: int)
    by (nonlinear_arith)
    requires
        1 <= min_speed <= max_speed,
    ensures
        max_speed * max_speed - 4 * max_speed - 1 >= min_speed * min_speed - 4 * min_speed - 1
            || min_speed * min_speed <= 4 * min_speed + 1,
{
}

} // verus!
