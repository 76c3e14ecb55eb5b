//! The geotag run: owns the run's configuration, the time-sorted timeline
//! built from the track log's raw fixes, and the list of target images;
//! answers interpolation queries and plans the metadata written for each
//! image.

use vstd::prelude::*;
use crate::timepoint::{TimePoint, point_in_range, sorted_by_time, MAX_ABS_COORD, MAX_ABS_ELEVATION};
use crate::interp::{
    is_bracket, has_bracket, matches_interp, interp_point, lerp_i64, lemma_bracket_unique,
};
use crate::sorting::{sort_points, is_stable_sort_witness};
use crate::timeparse::{rfc3339_unix, parse_rfc3339_unix};
use crate::capture::{spec_capture_unix, capture_unix_utc};
use crate::dms::{
    Hemisphere, DmsCoord, spec_dms, spec_altitude_meters, encode_latitude, encode_longitude,
    encode_altitude,
};

verus! {

/// Everything that can end or skip a step of a geotag run. Timeline
/// construction failures and output failures are fatal to the whole run;
/// `NoImagesMatched` is informational.
#[derive(Debug, Clone, Copy, PartialEq, Eq, Structural)]
pub enum GeotagError {
    /// The track log is missing or unreadable.
    SourceUnavailable,
    /// The track log fails its structural parse.
    MalformedSource,
    /// A waypoint or photo timestamp fails to parse.
    TimestampParse,
    /// The image pattern matches no file.
    NoImagesMatched,
    /// The output directory or an image copy cannot be written.
    OutputUnwritable,
    /// An image's metadata cannot be read.
    MetadataUnreadable,
    /// An image's metadata cannot be written back.
    MetadataUnwritable,
}

/// One waypoint as read from the track log: position, optional elevation,
/// and the timestamp text still unparsed.
#[derive(Debug)]
pub struct RawFix {
    /// Latitude in units of 1e-7 degree.
    pub lat: i64,
    /// Longitude in units of 1e-7 degree.
    pub lon: i64,
    /// Elevation in millimeters, absent when the track omits it.
    pub elevation: Option<i64>,
    /// The waypoint's timestamp text, expected to be RFC 3339.
    pub time_text: Vec<u8>,
}

/// The fix's coordinates and elevation lie within the library's bounds.
pub open spec fn fix_in_range(f: RawFix) -> bool {
    &&& -MAX_ABS_COORD <= f.lat <= MAX_ABS_COORD
    &&& -MAX_ABS_COORD <= f.lon <= MAX_ABS_COORD
    &&& (f.elevation matches Some(e) ==> -MAX_ABS_ELEVATION <= e <= MAX_ABS_ELEVATION)
}

/// The fix's timestamp text is a valid RFC 3339 timestamp.
pub open spec fn fix_parses(f: RawFix) -> bool {
    rfc3339_unix(f.time_text@) is Some
}

/// The fix as a timeline point: same position and elevation, with the
/// timestamp text parsed to whole seconds since the epoch.
pub open spec fn parsed_point(f: RawFix) -> TimePoint {
    TimePoint { lat: f.lat, lon: f.lon, elevation: f.elevation, time: rfc3339_unix(f.time_text@)->0 }
}

/// Every raw fix parsed, in input order.
pub open spec fn parsed_points(fixes: Seq<RawFix>) -> Seq<TimePoint> {
    fixes.map_values(|f: RawFix| parsed_point(f))
}

/// The metadata fields planned for one image: hemisphere references, the
/// coordinate rational triples, and optionally a whole-meter altitude.
#[derive(Debug, Clone, Copy, PartialEq)]
pub struct GpsTags {
    pub lat_ref: Hemisphere,
    pub lat: DmsCoord,
    pub lon_ref: Hemisphere,
    pub lon: DmsCoord,
    pub altitude: Option<u32>,
}

/// What the run does with one image: skip it when it has no capture time,
/// leave the copy untagged when no timeline pair brackets its instant, or
/// write the planned GPS fields.
#[derive(Debug, Clone, Copy, PartialEq)]
pub enum ImagePlan {
    Skip,
    NoFix,
    Tag(GpsTags),
}

/// The GPS metadata fields encoding a fix's position and elevation.
pub open spec fn spec_tags_for(p: TimePoint) -> GpsTags {
    GpsTags {
        lat_ref: if p.lat >= 0 { Hemisphere::North } else { Hemisphere::South },
        lat: spec_dms(vstd::math::abs(p.lat as int) as int),
        lon_ref: if p.lon >= 0 { Hemisphere::East } else { Hemisphere::West },
        lon: spec_dms(vstd::math::abs(p.lon as int) as int),
        altitude: match p.elevation {
            Some(e) => Some(spec_altitude_meters(e as int) as u32),
            None => None,
        },
    }
}

/// A geotag run: configuration, the timeline, and the resolved targets.
#[derive(Debug)]
pub struct Geotag {
    /// Path of the track log.
    pub gpx_path: String,
    /// The pattern selecting the target images.
    pub image_path: String,
    /// Directory receiving the annotated copies.
    pub output_dir: String,
    /// The time-sorted timeline built from the track log.
    pub timeline: Vec<TimePoint>,
    /// The resolved list of target image paths.
    pub target_images: Vec<String>,
}

impl Geotag {
    /// The timeline is time-sorted with every point within bounds: what
    /// `generate_timeline` establishes and every query relies on.
    pub open spec fn wf(&self) -> bool {
        &&& sorted_by_time(self.timeline@)
        &&& forall|k: int| 0 <= k < self.timeline@.len()
            ==> point_in_range(#[trigger] self.timeline@[k])
    }

    /// Creates a run with the given configuration, an empty timeline, and
    /// no resolved targets.
    pub fn new(gpx_path: String, image_path: String, output_dir: String) -> (r: Geotag)
        ensures
            r.gpx_path@ == gpx_path@,
            r.image_path@ == image_path@,
            r.output_dir@ == output_dir@,
            r.timeline@.len() == 0,
            r.target_images@.len() == 0,
            r.wf(),
    {
        Geotag {
            gpx_path,
            image_path,
            output_dir,
            timeline: Vec::new(),
            target_images: Vec::new(),
        }
    }

    /// Builds the timeline from the track log's raw fixes: parses every
    /// timestamp to whole seconds since the epoch, then sorts ascending by
    /// time, stably, so fixes with equal timestamps keep source order. A
    /// single unparsable timestamp aborts the whole build and leaves the
    /// run unchanged: no partial timeline is ever kept.
    pub fn generate_timeline(&mut self, fixes: &Vec<RawFix>) -> (r: Result<(), GeotagError>)
        requires
            forall|k: int| 0 <= k < fixes@.len() ==> fix_in_range(#[trigger] fixes@[k]),
        ensures
            match r {
                Ok(()) => {
                    &&& forall|k: int| 0 <= k < fixes@.len() ==> fix_parses(#[trigger] fixes@[k])
                    &&& final(self).wf()
                    &&& exists|p: Seq<int>|
                        is_stable_sort_witness(parsed_points(fixes@), final(self).timeline@, p)
                    &&& final(self).gpx_path@ == old(self).gpx_path@
                    &&& final(self).image_path@ == old(self).image_path@
                    &&& final(self).output_dir@ == old(self).output_dir@
                    &&& final(self).target_images@ == old(self).target_images@
                },
                Err(e) => {
                    &&& e == GeotagError::TimestampParse
                    &&& exists|k: int| 0 <= k < fixes@.len() && !fix_parses(#[trigger] fixes@[k])
                    &&& *final(self) == *old(self)
                },
            },
    {
        let mut pts: Vec<TimePoint> = Vec::new();
        let mut k: usize = 0;
        while k < fixes.len()
            invariant
                k <= fixes@.len(),
                pts@.len() == k,
                forall|j: int| 0 <= j < fixes@.len() ==> fix_in_range(#[trigger] fixes@[j]),
                forall|j: int| 0 <= j < k ==> fix_parses(#[trigger] fixes@[j]),
                forall|j: int| 0 <= j < k ==> #[trigger] pts@[j] == parsed_point(fixes@[j]),
            decreases fixes@.len() - k,
        {
            let f: &RawFix = &fixes[k];
            match parse_rfc3339_unix(&f.time_text) {
                None => {
                    return Err(GeotagError::TimestampParse);
                },
                Some(t) => {
                    pts.push(TimePoint { lat: f.lat, lon: f.lon, elevation: f.elevation, time: t });
                },
            }
            k += 1;
        }
        let sorted = sort_points(&pts);
        proof {
            assert(pts@ =~= parsed_points(fixes@));
            let p = choose|p: Seq<int>| is_stable_sort_witness(pts@, sorted@, p);
            assert forall|j: int| 0 <= j < sorted@.len()
                implies point_in_range(#[trigger] sorted@[j]) by {
                assert(sorted@[j] == pts@[p[j]]);
                assert(fix_in_range(fixes@[p[j]]));
            }
        }
        self.timeline = sorted;
        Ok(())
    }

    /// Looks for the unique adjacent timeline pair whose times strictly
    /// bracket the query and returns the linearly interpolated fix, or
    /// `None` when the timeline has fewer than two points, the query lies
    /// at or outside the endpoints, or it exactly equals a point's time.
    pub fn interpolate(&self, timestamp: i64) -> (r: Option<TimePoint>)
        requires
            self.wf(),
        ensures
            r is Some <==> has_bracket(self.timeline@, timestamp as int),
            forall|i: int| is_bracket(self.timeline@, timestamp as int, i)
                ==> r == Some(interp_point(
                    self.timeline@[i],
                    self.timeline@[i + 1],
                    timestamp as int,
                )),
            r matches Some(p) ==> point_in_range(p) && p.time == timestamp,
            r matches Some(p) ==> exists|i: int|
                #[trigger] is_bracket(self.timeline@, timestamp as int, i)
                && matches_interp(
                    self.timeline@[i],
                    self.timeline@[i + 1],
                    timestamp as int,
                    p,
                ),
    {
        let ghost s = self.timeline@;
        let ghost q = timestamp as int;
        let n: usize = self.timeline.len();
        if n < 2 {
            proof {
                assert forall|i: int| !is_bracket(s, q, i) by {}
            }
            return None;
        }
        let mut i: usize = 0;
        while i < n - 1
            invariant
                self.wf(),
                s == self.timeline@,
                q == timestamp as int,
                n == s.len(),
                2 <= n,
                i <= n - 1,
                forall|k: int| 0 <= k < i ==> !is_bracket(s, q, k),
            decreases n - i,
        {
            let t1: i64 = self.timeline[i].time;
            let t2: i64 = self.timeline[i + 1].time;
            if t1 < timestamp && t2 > timestamp {
                let p1: TimePoint = self.timeline[i];
                let p2: TimePoint = self.timeline[i + 1];
                proof {
                    assert(point_in_range(s[i as int]));
                    assert(point_in_range(s[i as int + 1]));
                }
                let lat: i64 = lerp_i64(p1.lat, p2.lat, p1.time, p2.time, timestamp);
                let lon: i64 = lerp_i64(p1.lon, p2.lon, p1.time, p2.time, timestamp);
                let elevation: Option<i64> = match (p1.elevation, p2.elevation) {
                    (Some(e1), Some(e2)) => Some(lerp_i64(e1, e2, p1.time, p2.time, timestamp)),
                    _ => None,
                };
                let result = TimePoint { lat, lon, elevation, time: timestamp };
                proof {
                    assert(is_bracket(s, q, i as int));
                    assert(matches_interp(p1, p2, q, result));
                    assert(result == interp_point(p1, p2, q));
                    assert forall|k: int| is_bracket(s, q, k)
                        implies Some(result) == Some(interp_point(s[k], s[k + 1], q)) by {
                        lemma_bracket_unique(s, q, i as int, k);
                    }
                }
                return Some(result);
            }
            i += 1;
        }
        proof {
            assert forall|k: int| !is_bracket(s, q, k) by {
                if 0 <= k && k + 1 < s.len() {
                    assert(!is_bracket(s, q, k));
                }
            }
        }
        None
    }

    /// Plans one image's annotation: an image with no capture-time field is
    /// skipped; an unreadable capture time is a fatal timestamp error; a
    /// capture instant no timeline pair brackets leaves the copy untagged;
    /// otherwise the interpolated fix is encoded into GPS metadata fields.
    /// The capture field's local date-time is shifted to UTC by the given
    /// offset before the timeline is queried.
    pub fn plan_image(&self, capture: Option<&Vec<u8>>, utc_offset: i32) -> (r: Result<
        ImagePlan,
        GeotagError,
    >)
        requires
            self.wf(),
        ensures
            capture is None ==> r == Result::<ImagePlan, GeotagError>::Ok(ImagePlan::Skip),
            capture matches Some(c) ==> match spec_capture_unix(c@, utc_offset as int) {
                Option::None => r == Result::<ImagePlan, GeotagError>::Err(
                    GeotagError::TimestampParse,
                ),
                Option::Some(ts) => {
                    &&& (!has_bracket(self.timeline@, ts) ==> r == Result::<
                        ImagePlan,
                        GeotagError,
                    >::Ok(ImagePlan::NoFix))
                    &&& forall|i: int| is_bracket(self.timeline@, ts, i)
                        ==> r == Result::<ImagePlan, GeotagError>::Ok(ImagePlan::Tag(
                            spec_tags_for(interp_point(
                                self.timeline@[i],
                                self.timeline@[i + 1],
                                ts,
                            )),
                        ))
                },
            },
    {
        let c: &Vec<u8> = match capture {
            None => {
                return Ok(ImagePlan::Skip);
            },
            Some(c) => c,
        };
        let ts: i64 = match capture_unix_utc(c, utc_offset) {
            None => {
                return Err(GeotagError::TimestampParse);
            },
            Some(ts) => ts,
        };
        match self.interpolate(ts) {
            None => Ok(ImagePlan::NoFix),
            Some(p) => {
                let (lat_ref, lat_dms) = encode_latitude(p.lat);
                let (lon_ref, lon_dms) = encode_longitude(p.lon);
                let altitude: Option<u32> = match p.elevation {
                    Some(e) => Some(encode_altitude(e)),
                    None => None,
                };
                let tags = GpsTags { lat_ref, lat: lat_dms, lon_ref, lon: lon_dms, altitude };
                proof {
                    assert(tags == spec_tags_for(p));
                    assert forall|i: int| is_bracket(self.timeline@, ts as int, i)
                        implies p == interp_point(
                            self.timeline@[i],
                            self.timeline@[i + 1],
                            ts as int,
                        ) by {}
                }
                Ok(ImagePlan::Tag(tags))
            },
        }
    }
}

} // verus!
