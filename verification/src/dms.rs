//! Coordinate encoder: a signed fixed-point coordinate becomes a hemisphere
//! reference plus a degrees/minutes/seconds rational triple, the form GPS
//! metadata fields require. Seconds carry five decimal digits as a rational
//! with denominator 100000; at the library's 1e-7-degree resolution the
//! decomposition is exact.

use vstd::prelude::*;
use crate::timepoint::{COORD_SCALE, MAX_ABS_COORD, MAX_ABS_ELEVATION};
use vstd::arithmetic::div_mod::{
    lemma_fundamental_div_mod, lemma_fundamental_div_mod_converse, lemma_div_is_ordered,
    lemma_mod_division_less_than_divisor, lemma_div_pos_is_pos,
};

verus! {

/// Hemisphere reference of a coordinate; zero counts as the positive
/// hemisphere (north or east) by convention.
#[derive(Debug, Clone, Copy, PartialEq, Eq, Structural)]
pub enum Hemisphere {
    North,
    South,
    East,
    West,
}

impl Hemisphere {
    /// The single-character reference written into the metadata field.
    pub open spec fn spec_char(self) -> char {
        match self {
            Hemisphere::North => 'N',
            Hemisphere::South => 'S',
            Hemisphere::East => 'E',
            Hemisphere::West => 'W',
        }
    }

    /// Returns the single-character reference for this hemisphere.
    pub fn to_char(self) -> (c: char)
        ensures
            c == self.spec_char(),
    {
        match self {
            Hemisphere::North => 'N',
            Hemisphere::South => 'S',
            Hemisphere::East => 'E',
            Hemisphere::West => 'W',
        }
    }
}

/// A coordinate magnitude as the three rationals of a GPS metadata field:
/// whole degrees over 1, whole minutes over 1, and scaled seconds over
/// `seconds_den` (always 100000, keeping five decimal digits).
#[derive(Debug, Clone, Copy, PartialEq, Eq, Structural)]
pub struct DmsCoord {
    pub degrees: u32,
    pub minutes: u32,
    pub seconds_num: u32,
    pub seconds_den: u32,
}

/// The degree/minute/second decomposition of a non-negative coordinate
/// magnitude given in units of 1e-7 degree.
pub open spec fn spec_dms(mag: int) -> DmsCoord {
    let scale = COORD_SCALE as int;
    let rem = mag % scale;
    let rm = (rem * 60) % scale;
    DmsCoord {
        degrees: (mag / scale) as u32,
        minutes: ((rem * 60) / scale) as u32,
        seconds_num: ((rm * 6_000_000) / scale) as u32,
        seconds_den: 100_000u32,
    }
}

/// The value a degree/minute/second triple decodes back to, in units of
/// 1e-5 arcsecond (the resolution of the seconds rational).
pub open spec fn dms_total_subseconds(d: DmsCoord) -> int {
    d.degrees * 360_000_000 + d.minutes * 6_000_000 + d.seconds_num
}

/// Decoding the triple produced for a magnitude reproduces that magnitude
/// exactly: one 1e-7-degree unit is 36 units of 1e-5 arcsecond, and no
/// rounding occurs anywhere in the decomposition.
pub proof fn lemma_dms_round_trip(mag: int)
    requires
        0 <= mag <= MAX_ABS_COORD,
    ensures
        dms_total_subseconds(spec_dms(mag)) == 36 * mag,
{
    let scale = COORD_SCALE as int;
    let deg = mag / scale;
    let rem = mag % scale;
    lemma_fundamental_div_mod(mag, scale);
    lemma_mod_division_less_than_divisor(mag, scale);
    lemma_div_pos_is_pos(mag, scale);
    lemma_div_is_ordered(mag, 1_800_000_000, scale);
    let minutes = (rem * 60) / scale;
    let rm = (rem * 60) % scale;
    lemma_fundamental_div_mod(rem * 60, scale);
    lemma_mod_division_less_than_divisor(rem * 60, scale);
    lemma_div_pos_is_pos(rem * 60, scale);
    lemma_div_is_ordered(rem * 60, 599_999_940, scale);
    let x = rem * 36 - minutes * 6_000_000;
    assert(rm * 6_000_000 == x * scale + 0) by (nonlinear_arith)
        requires
            rm == rem * 60 - scale * minutes,
            x == rem * 36 - minutes * 6_000_000,
            scale == 10_000_000,
    ;
    assert(0 <= x * scale) by (nonlinear_arith)
        requires rm * 6_000_000 == x * scale + 0 && 0 <= rm;
    assert(0 <= x) by (nonlinear_arith)
        requires 0 <= x * scale && scale == 10_000_000;
    assert(x < 6_000_000) by (nonlinear_arith)
        requires
            rm * 6_000_000 == x * scale + 0,
            rm < scale,
            scale == 10_000_000,
    ;
    lemma_fundamental_div_mod_converse(rm * 6_000_000, scale, x, 0);
    assert(deg * 360_000_000 + minutes * 6_000_000 + x == 36 * mag) by (nonlinear_arith)
        requires
            mag == scale * deg + rem,
            rm == rem * 60 - scale * minutes,
            x == rem * 36 - minutes * 6_000_000,
            scale == 10_000_000,
    ;
}

/// Splits a non-negative coordinate magnitude into whole degrees, whole
/// minutes, and seconds scaled by 100000.
pub fn encode_magnitude(mag: i64) -> (r: DmsCoord)
    requires
        0 <= mag <= MAX_ABS_COORD,
    ensures
        r == spec_dms(mag as int),
        r.degrees <= 180,
        r.minutes < 60,
        r.seconds_num < 6_000_000,
{
    let m: u64 = mag as u64;
    let scale: u64 = 10_000_000;
    let degrees: u64 = m / scale;
    let rem: u64 = m % scale;
    let minutes: u64 = (rem * 60) / scale;
    let rm: u64 = (rem * 60) % scale;
    let seconds_num: u64 = (rm * 6_000_000) / scale;
    proof {
        lemma_mod_division_less_than_divisor(m as int, scale as int);
        lemma_div_pos_is_pos(m as int, scale as int);
        lemma_div_is_ordered(m as int, 1_800_000_000, scale as int);
        lemma_mod_division_less_than_divisor(rem as int * 60, scale as int);
        lemma_div_pos_is_pos(rem as int * 60, scale as int);
        lemma_div_is_ordered(rem as int * 60, 599_999_940, scale as int);
        lemma_div_pos_is_pos(rm as int * 6_000_000, scale as int);
        lemma_div_is_ordered(rm as int * 6_000_000, 59_999_994_000_000, scale as int);
    }
    DmsCoord {
        degrees: degrees as u32,
        minutes: minutes as u32,
        seconds_num: seconds_num as u32,
        seconds_den: 100_000,
    }
}

/// The hemisphere and magnitude decomposition of a signed latitude:
/// non-negative values are northern by convention.
pub fn encode_latitude(lat: i64) -> (r: (Hemisphere, DmsCoord))
    requires
        -MAX_ABS_COORD <= lat <= MAX_ABS_COORD,
    ensures
        r.0 == (if lat >= 0 { Hemisphere::North } else { Hemisphere::South }),
        r.1 == spec_dms(vstd::math::abs(lat as int) as int),
{
    if lat >= 0 {
        (Hemisphere::North, encode_magnitude(lat))
    } else {
        (Hemisphere::South, encode_magnitude(-lat))
    }
}

/// The hemisphere and magnitude decomposition of a signed longitude:
/// non-negative values are eastern by convention.
pub fn encode_longitude(lon: i64) -> (r: (Hemisphere, DmsCoord))
    requires
        -MAX_ABS_COORD <= lon <= MAX_ABS_COORD,
    ensures
        r.0 == (if lon >= 0 { Hemisphere::East } else { Hemisphere::West }),
        r.1 == spec_dms(vstd::math::abs(lon as int) as int),
{
    if lon >= 0 {
        (Hemisphere::East, encode_magnitude(lon))
    } else {
        (Hemisphere::West, encode_magnitude(-lon))
    }
}

/// Whole meters written into the altitude rational (denominator 1):
/// fractional meters are truncated, and elevations below the reference
/// clamp to zero, as the metadata field is unsigned.
pub open spec fn spec_altitude_meters(mm: int) -> int {
    if mm < 0 {
        0
    } else {
        mm / 1000
    }
}

/// Converts a millimeter elevation to the whole-meter altitude rational.
pub fn encode_altitude(mm: i64) -> (r: u32)
    requires
        -MAX_ABS_ELEVATION <= mm <= MAX_ABS_ELEVATION,
    ensures
        r == spec_altitude_meters(mm as int),
{
    if mm < 0 {
        0
    } else {
        proof {
            lemma_div_pos_is_pos(mm as int, 1000);
            lemma_div_is_ordered(mm as int, MAX_ABS_ELEVATION as int, 1000);
        }
        ((mm as u64) / 1000) as u32
    }
}

} // verus!
