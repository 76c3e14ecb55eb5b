//! The core data model: a single geographic fix anchored in time.

use vstd::prelude::*;

verus! {

/// Number of fixed-point units per decimal degree: coordinates are held in
/// units of 1e-7 degree.
pub const COORD_SCALE: i64 = 10_000_000;

/// Largest coordinate magnitude the library accepts: 180 degrees in
/// fixed-point units, the widest value the track-log format can carry.
pub const MAX_ABS_COORD: i64 = 1_800_000_000;

/// Largest elevation magnitude the library accepts, in millimeters.
/// The bound keeps every intermediate interpolation product inside `i128`.
pub const MAX_ABS_ELEVATION: i64 = 1_000_000_000_000;

/// A single geographic fix: position, optional elevation, and the second
/// (Unix time, UTC) at which it was recorded.
#[derive(Debug, Clone, Copy, PartialEq)]
pub struct TimePoint {
    /// Latitude in units of 1e-7 degree, signed (north positive).
    pub lat: i64,
    /// Longitude in units of 1e-7 degree, signed (east positive).
    pub lon: i64,
    /// Elevation in millimeters above the reference, absent when the
    /// source track omits it.
    pub elevation: Option<i64>,
    /// Whole seconds since the Unix epoch, UTC.
    pub time: i64,
}

/// The point's coordinates and elevation lie within the library's bounds.
pub open spec fn point_in_range(p: TimePoint) -> bool {
    &&& -MAX_ABS_COORD <= p.lat <= MAX_ABS_COORD
    &&& -MAX_ABS_COORD <= p.lon <= MAX_ABS_COORD
    &&& (p.elevation matches Some(e) ==> -MAX_ABS_ELEVATION <= e <= MAX_ABS_ELEVATION)
}

/// The sequence is ordered non-decreasing by time.
pub open spec fn sorted_by_time(s: Seq<TimePoint>) -> bool {
    forall|i: int, j: int| 0 <= i <= j < s.len() ==> s[i].time <= s[j].time
}

} // verus!
