//! Temporal linear interpolation between two bracketing fixes.
//!
//! A value at query time `q` between fixes at `t1 < q < t2` is the
//! time-weighted mean `(v1*(t2-q) + v2*(q-t1)) / (t2-t1)`, computed in
//! fixed-point integers and rounded toward negative infinity; whenever the
//! weighted sum is divisible by the time span the result is exact.

use vstd::prelude::*;
use crate::timepoint::{TimePoint, MAX_ABS_ELEVATION, point_in_range, sorted_by_time};
use vstd::arithmetic::div_mod::{
    lemma_fundamental_div_mod, lemma_fundamental_div_mod_converse, lemma_div_is_ordered,
    lemma_div_multiples_vanish, lemma_div_pos_is_pos,
};
use vstd::arithmetic::mul::{lemma_mul_inequality, lemma_mul_nonnegative};

verus! {

/// The time-weighted linear interpolation of `v1` at `t1` and `v2` at `t2`,
/// evaluated at `q`, rounded toward negative infinity.
pub open spec fn lerp(v1: int, v2: int, t1: int, t2: int, q: int) -> int {
    (v1 * (t2 - q) + v2 * (q - t1)) / (t2 - t1)
}

/// Index `i` and its successor bracket the query time `q` strictly.
pub open spec fn is_bracket(s: Seq<TimePoint>, q: int, i: int) -> bool {
    &&& 0 <= i
    &&& i + 1 < s.len()
    &&& s[i].time < q
    &&& s[i + 1].time > q
}

/// Some adjacent pair of the sequence brackets the query time strictly.
pub open spec fn has_bracket(s: Seq<TimePoint>, q: int) -> bool {
    exists|i: int| is_bracket(s, q, i)
}

/// `r` is the fix interpolated between `p1` and `p2` at time `q`:
/// latitude and longitude are time-weighted means, and elevation is
/// interpolated exactly when both endpoints carry one.
pub open spec fn matches_interp(p1: TimePoint, p2: TimePoint, q: int, r: TimePoint) -> bool {
    &&& r.time == q
    &&& r.lat == lerp(p1.lat as int, p2.lat as int, p1.time as int, p2.time as int, q)
    &&& r.lon == lerp(p1.lon as int, p2.lon as int, p1.time as int, p2.time as int, q)
    &&& match (p1.elevation, p2.elevation) {
            (Some(e1), Some(e2)) => {
                &&& r.elevation is Some
                &&& r.elevation->0 == lerp(e1 as int, e2 as int, p1.time as int, p2.time as int, q)
            },
            _ => r.elevation is None,
        }
}

/// The fix a bracketing pair interpolates to at query time `q`: the
/// time-weighted means of the endpoints' values, with elevation present
/// exactly when both endpoints carry one.
pub open spec fn interp_point(p1: TimePoint, p2: TimePoint, q: int) -> TimePoint {
    TimePoint {
        lat: lerp(p1.lat as int, p2.lat as int, p1.time as int, p2.time as int, q) as i64,
        lon: lerp(p1.lon as int, p2.lon as int, p1.time as int, p2.time as int, q) as i64,
        elevation: match (p1.elevation, p2.elevation) {
            (Some(e1), Some(e2)) => Some(
                lerp(e1 as int, e2 as int, p1.time as int, p2.time as int, q) as i64,
            ),
            _ => None,
        },
        time: q as i64,
    }
}

/// In a time-sorted sequence at most one adjacent pair brackets a query
/// time strictly.
pub proof fn lemma_bracket_unique(s: Seq<TimePoint>, q: int, i: int, j: int)
    requires
        sorted_by_time(s),
        is_bracket(s, q, i),
        is_bracket(s, q, j),
    ensures
        i == j,
{
    if i < j {
        assert(s[i + 1].time <= s[j].time);
    }
    if j < i {
        assert(s[j + 1].time <= s[i].time);
    }
}

/// A sequence of fewer than two fixes, or a query at or outside the
/// endpoint times, has no bracketing pair: interpolation reports no fix
/// there.
pub proof fn lemma_no_bracket_outside(s: Seq<TimePoint>, q: int)
    requires
        sorted_by_time(s),
        s.len() <= 1 || q <= s[0].time || q >= s[s.len() - 1].time,
    ensures
        !has_bracket(s, q),
{
    assert forall|i: int| !is_bracket(s, q, i) by {
        if 0 <= i && i + 1 < s.len() {
            assert(s[0].time <= s[i].time);
            assert(s[i + 1].time <= s[s.len() - 1].time);
        }
    }
}

/// A query that exactly equals some fix's time has no bracketing pair:
/// exact matches are reported as no fix, never as zero-length
/// interpolation.
pub proof fn lemma_no_bracket_at_point(s: Seq<TimePoint>, q: int, k: int)
    requires
        sorted_by_time(s),
        0 <= k < s.len(),
        s[k].time == q,
    ensures
        !has_bracket(s, q),
{
    assert forall|i: int| !is_bracket(s, q, i) by {
        if 0 <= i && i + 1 < s.len() {
            if k <= i {
                assert(s[k].time <= s[i].time);
            } else {
                assert(s[i + 1].time <= s[k].time);
            }
        }
    }
}

/// The interpolated fix carries an elevation exactly when both bracketing
/// fixes do; partial elevation data is never guessed.
pub proof fn lemma_elevation_present_iff(p1: TimePoint, p2: TimePoint, q: int, r: TimePoint)
    requires
        matches_interp(p1, p2, q, r),
    ensures
        r.elevation is Some <==> (p1.elevation is Some && p2.elevation is Some),
{
}

/// Rewrites the weighted sum relative to a lower bound `m` of both values:
/// the shifted sum is non-negative and yields the same quotient after
/// adding `m` back.
proof fn lemma_lerp_from_base(v1: int, v2: int, t1: int, t2: int, q: int, m: int)
    requires
        t1 < q,
        q < t2,
        m <= v1,
        m <= v2,
    ensures
        0 <= (v1 - m) * (t2 - q) + (v2 - m) * (q - t1),
        lerp(v1, v2, t1, t2, q) == m + ((v1 - m) * (t2 - q) + (v2 - m) * (q - t1)) / (t2 - t1),
{
    let w2 = t2 - q;
    let w1 = q - t1;
    let d = t2 - t1;
    let num2 = (v1 - m) * w2 + (v2 - m) * w1;
    lemma_mul_nonnegative(v1 - m, w2);
    lemma_mul_nonnegative(v2 - m, w1);
    assert(num2 == v1 * w2 + v2 * w1 - m * d) by (nonlinear_arith)
        requires num2 == (v1 - m) * w2 + (v2 - m) * w1 && w2 == t2 - q && w1 == q - t1 && d == t2 - t1;
    let quo = num2 / d;
    let rem = num2 % d;
    lemma_fundamental_div_mod(num2, d);
    assert(v1 * w2 + v2 * w1 == d * (quo + m) + rem) by (nonlinear_arith)
        requires num2 == d * quo + rem && num2 == v1 * w2 + v2 * w1 - m * d;
    lemma_fundamental_div_mod_converse(v1 * w2 + v2 * w1, d, quo + m, rem);
}

/// The interpolated value never leaves the closed interval spanned by the
/// two endpoint values.
pub proof fn lemma_lerp_bounds(v1: int, v2: int, t1: int, t2: int, q: int)
    requires
        t1 < q,
        q < t2,
    ensures
        vstd::math::min(v1, v2) <= lerp(v1, v2, t1, t2, q) <= vstd::math::max(v1, v2),
{
    let m = vstd::math::min(v1, v2);
    let hi = vstd::math::max(v1, v2);
    let w2 = t2 - q;
    let w1 = q - t1;
    let d = t2 - t1;
    let num2 = (v1 - m) * w2 + (v2 - m) * w1;
    lemma_lerp_from_base(v1, v2, t1, t2, q, m);
    lemma_div_pos_is_pos(num2, d);
    assert(num2 <= (hi - m) * d) by {
        lemma_mul_inequality(v1 - m, hi - m, w2);
        lemma_mul_inequality(v2 - m, hi - m, w1);
        assert((hi - m) * w2 + (hi - m) * w1 == (hi - m) * d) by (nonlinear_arith)
            requires w2 == t2 - q && w1 == q - t1 && d == t2 - t1;
    }
    lemma_div_is_ordered(num2, (hi - m) * d, d);
    lemma_div_multiples_vanish(hi - m, d);
    assert((hi - m) * d == d * (hi - m)) by (nonlinear_arith);
}

/// Whenever the time span divides the weighted sum, the interpolation is
/// the exact weighted average, with no rounding at all.
pub proof fn lemma_lerp_exact(v1: int, v2: int, t1: int, t2: int, q: int)
    requires
        t1 < q,
        q < t2,
        (v1 * (t2 - q) + v2 * (q - t1)) % (t2 - t1) == 0,
    ensures
        lerp(v1, v2, t1, t2, q) * (t2 - t1) == v1 * (t2 - q) + v2 * (q - t1),
{
    let num = v1 * (t2 - q) + v2 * (q - t1);
    let d = t2 - t1;
    lemma_fundamental_div_mod(num, d);
    assert(d * (num / d) == (num / d) * d) by (nonlinear_arith);
}

/// For bracketing fixes within the library's bounds whose weighted sums
/// the time span divides, the interpolated fix carries exactly the
/// time-weighted average latitude and longitude: multiplying the result
/// back by the span recovers the weighted sum with no rounding.
pub proof fn lemma_interp_exact_average(p1: TimePoint, p2: TimePoint, q: int)
    requires
        p1.time < q,
        q < p2.time,
        point_in_range(p1),
        point_in_range(p2),
        (p1.lat * (p2.time - q) + p2.lat * (q - p1.time)) % (p2.time - p1.time) == 0,
        (p1.lon * (p2.time - q) + p2.lon * (q - p1.time)) % (p2.time - p1.time) == 0,
    ensures
        interp_point(p1, p2, q).lat * (p2.time - p1.time)
            == p1.lat * (p2.time - q) + p2.lat * (q - p1.time),
        interp_point(p1, p2, q).lon * (p2.time - p1.time)
            == p1.lon * (p2.time - q) + p2.lon * (q - p1.time),
{
    lemma_lerp_bounds(p1.lat as int, p2.lat as int, p1.time as int, p2.time as int, q);
    lemma_lerp_bounds(p1.lon as int, p2.lon as int, p1.time as int, p2.time as int, q);
    lemma_lerp_exact(p1.lat as int, p2.lat as int, p1.time as int, p2.time as int, q);
    lemma_lerp_exact(p1.lon as int, p2.lon as int, p1.time as int, p2.time as int, q);
}

/// Computes the time-weighted interpolation of `v1` and `v2` at `q` in
/// 128-bit intermediate arithmetic.
pub fn lerp_i64(v1: i64, v2: i64, t1: i64, t2: i64, q: i64) -> (r: i64)
    requires
        t1 < q,
        q < t2,
        -MAX_ABS_ELEVATION <= v1 <= MAX_ABS_ELEVATION,
        -MAX_ABS_ELEVATION <= v2 <= MAX_ABS_ELEVATION,
    ensures
        r == lerp(v1 as int, v2 as int, t1 as int, t2 as int, q as int),
        vstd::math::min(v1 as int, v2 as int) <= r <= vstd::math::max(v1 as int, v2 as int),
{
    let m: i64 = if v1 <= v2 { v1 } else { v2 };
    let hi: i64 = if v1 <= v2 { v2 } else { v1 };
    let w2: i128 = (t2 as i128) - (q as i128);
    let w1: i128 = (q as i128) - (t1 as i128);
    let d: i128 = (t2 as i128) - (t1 as i128);
    proof {
        lemma_mul_inequality(v1 - m, 2 * MAX_ABS_ELEVATION, w2 as int);
        lemma_mul_inequality(v2 - m, 2 * MAX_ABS_ELEVATION, w1 as int);
        assert((v1 - m) * w2 <= 2 * MAX_ABS_ELEVATION * w2) by (nonlinear_arith)
            requires 0 <= v1 - m <= 2 * MAX_ABS_ELEVATION && 0 < w2;
        assert((v2 - m) * w1 <= 2 * MAX_ABS_ELEVATION * w1) by (nonlinear_arith)
            requires 0 <= v2 - m <= 2 * MAX_ABS_ELEVATION && 0 < w1;
        lemma_mul_nonnegative(v1 - m, w2 as int);
        lemma_mul_nonnegative(v2 - m, w1 as int);
        assert(2 * MAX_ABS_ELEVATION * w2 + 2 * MAX_ABS_ELEVATION * w1 == 2 * MAX_ABS_ELEVATION * d) by (nonlinear_arith)
            requires w2 + w1 == d;
        assert(2 * MAX_ABS_ELEVATION * d <= 0x7fffffff_ffffffff_ffffffff_ffffffff) by (nonlinear_arith)
            requires 0 < d <= 0x1_00000000_00000000;
    }
    let a1: i128 = ((v1 - m) as i128) * w2;
    let a2: i128 = ((v2 - m) as i128) * w1;
    let num2: i128 = a1 + a2;
    let quo: u128 = (num2 as u128) / (d as u128);
    proof {
        lemma_lerp_from_base(v1 as int, v2 as int, t1 as int, t2 as int, q as int, m as int);
        lemma_div_pos_is_pos(num2 as int, d as int);
        assert(num2 <= (hi - m) * d) by {
            lemma_mul_inequality(v1 - m, hi - m, w2 as int);
            lemma_mul_inequality(v2 - m, hi - m, w1 as int);
            assert((hi - m) * w2 + (hi - m) * w1 == (hi - m) * d) by (nonlinear_arith)
                requires w2 + w1 == d;
        }
        lemma_div_is_ordered(num2 as int, (hi - m) * d, d as int);
        lemma_div_multiples_vanish(hi - m, d as int);
        assert((hi - m) * d == d * (hi - m)) by (nonlinear_arith);
    }
    m + (quo as i64)
}

} // verus!
