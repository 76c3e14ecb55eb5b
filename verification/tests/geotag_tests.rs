use geotag::capture::normalize_capture_text;
use geotag::dms::{encode_altitude, encode_latitude, encode_longitude, Hemisphere};
use geotag::geotag::{Geotag, GeotagError, ImagePlan, RawFix};
use geotag::timeparse::{local_utc_offset, parse_rfc3339_unix};
use geotag::timepoint::TimePoint;

fn fix(lat: i64, lon: i64, elevation: Option<i64>, time_text: &str) -> RawFix {
    RawFix {
        lat,
        lon,
        elevation,
        time_text: time_text.as_bytes().to_vec(),
    }
}

/// Timeline of two fixes at t=100 (lat 10.0, lon 20.0, elev 5.0 m) and
/// t=200 (lat 10.0, lon 21.0, elev 15.0 m), in fixed-point units.
fn sample_run() -> Geotag {
    let mut g = Geotag::new(
        "track.gpx".to_string(),
        "*.jpg".to_string(),
        "out".to_string(),
    );
    let fixes = vec![
        fix(100_000_000, 200_000_000, Some(5_000), "1970-01-01T00:01:40Z"),
        fix(100_000_000, 210_000_000, Some(15_000), "1970-01-01T00:03:20Z"),
    ];
    g.generate_timeline(&fixes).unwrap();
    g
}

#[test]
fn new_sets_fields_and_empty_timeline() {
    let g = Geotag::new("a.gpx".to_string(), "b/*.jpg".to_string(), "c".to_string());
    assert_eq!(g.gpx_path, "a.gpx");
    assert_eq!(g.image_path, "b/*.jpg");
    assert_eq!(g.output_dir, "c");
    assert!(g.timeline.is_empty());
    assert!(g.target_images.is_empty());
}

#[test]
fn interpolate_midpoint_weighted_average() {
    let g = sample_run();
    let p = g.interpolate(150).unwrap();
    assert_eq!(
        p,
        TimePoint {
            lat: 100_000_000,
            lon: 205_000_000,
            elevation: Some(10_000),
            time: 150,
        }
    );
}

#[test]
fn interpolate_uneven_weights() {
    let g = sample_run();
    let p = g.interpolate(125).unwrap();
    assert_eq!(p.lat, 100_000_000);
    assert_eq!(p.lon, 202_500_000);
    assert_eq!(p.elevation, Some(7_500));
}

#[test]
fn interpolate_exact_match_returns_none() {
    let g = sample_run();
    assert_eq!(g.interpolate(100), None);
    assert_eq!(g.interpolate(200), None);
}

#[test]
fn interpolate_outside_range_returns_none() {
    let g = sample_run();
    assert_eq!(g.interpolate(50), None);
    assert_eq!(g.interpolate(300), None);
}

#[test]
fn interpolate_short_timeline_returns_none() {
    let mut g = Geotag::new(String::new(), String::new(), String::new());
    assert_eq!(g.interpolate(150), None);
    g.timeline = vec![TimePoint {
        lat: 0,
        lon: 0,
        elevation: None,
        time: 100,
    }];
    assert_eq!(g.interpolate(150), None);
}

#[test]
fn elevation_absent_unless_both_endpoints_carry_it() {
    let mut g = Geotag::new(String::new(), String::new(), String::new());
    let fixes = vec![
        fix(100_000_000, 200_000_000, Some(5_000), "1970-01-01T00:01:40Z"),
        fix(100_000_000, 210_000_000, None, "1970-01-01T00:03:20Z"),
    ];
    g.generate_timeline(&fixes).unwrap();
    let p = g.interpolate(150).unwrap();
    assert_eq!(p.elevation, None);
    assert_eq!(p.lon, 205_000_000);
}

#[test]
fn timeline_sorts_fixes_by_time() {
    let mut g = Geotag::new(String::new(), String::new(), String::new());
    let fixes = vec![
        fix(3, 3, None, "1970-01-01T00:03:20Z"),
        fix(1, 1, None, "1970-01-01T00:00:50Z"),
        fix(2, 2, None, "1970-01-01T00:01:40Z"),
    ];
    g.generate_timeline(&fixes).unwrap();
    let times: Vec<i64> = g.timeline.iter().map(|p| p.time).collect();
    assert_eq!(times, vec![50, 100, 200]);
    let lats: Vec<i64> = g.timeline.iter().map(|p| p.lat).collect();
    assert_eq!(lats, vec![1, 2, 3]);
}

#[test]
fn timeline_keeps_source_order_for_equal_times() {
    let mut g = Geotag::new(String::new(), String::new(), String::new());
    let fixes = vec![
        fix(7, 7, None, "1970-01-01T00:01:40Z"),
        fix(8, 8, None, "1970-01-01T00:01:40Z"),
        fix(6, 6, None, "1970-01-01T00:00:50Z"),
        fix(9, 9, None, "1970-01-01T00:01:40Z"),
    ];
    g.generate_timeline(&fixes).unwrap();
    let lats: Vec<i64> = g.timeline.iter().map(|p| p.lat).collect();
    assert_eq!(lats, vec![6, 7, 8, 9]);
}

#[test]
fn timeline_build_fails_on_bad_timestamp() {
    let mut g = Geotag::new(String::new(), String::new(), String::new());
    let fixes = vec![
        fix(1, 1, None, "1970-01-01T00:00:50Z"),
        fix(2, 2, None, "not a timestamp"),
    ];
    assert_eq!(
        g.generate_timeline(&fixes),
        Err(GeotagError::TimestampParse)
    );
    assert!(g.timeline.is_empty());
}

#[test]
fn timestamp_offsets_are_honoured() {
    // +01:00 in the text must shift the Unix timestamp back one hour.
    let t = parse_rfc3339_unix(&b"1970-01-01T01:01:40+01:00".to_vec());
    assert_eq!(t, Some(100));
    assert_eq!(parse_rfc3339_unix(&b"1970-01-01T00:01:40Z".to_vec()), Some(100));
    assert_eq!(parse_rfc3339_unix(&b"nonsense".to_vec()), None);
}

#[test]
fn encode_latitude_south_example() {
    // -33.456 degrees is 33 deg 27 min 21.6 sec south.
    let (hemisphere, dms) = encode_latitude(-334_560_000);
    assert_eq!(hemisphere, Hemisphere::South);
    assert_eq!(hemisphere.to_char(), 'S');
    assert_eq!(dms.degrees, 33);
    assert_eq!(dms.minutes, 27);
    assert_eq!(dms.seconds_num, 2_160_000);
    assert_eq!(dms.seconds_den, 100_000);
}

#[test]
fn encode_hemisphere_conventions() {
    assert_eq!(encode_latitude(0).0, Hemisphere::North);
    assert_eq!(encode_latitude(1).0, Hemisphere::North);
    assert_eq!(encode_longitude(0).0, Hemisphere::East);
    assert_eq!(encode_longitude(-1).0, Hemisphere::West);
    assert_eq!(encode_longitude(-1).0.to_char(), 'W');
}

#[test]
fn encode_round_trip_within_tolerance() {
    // Decoding degrees/minutes/seconds reproduces the magnitude exactly:
    // one 1e-7-degree unit is 36 units of 1e-5 arcsecond.
    for &mag in &[0i64, 1, 334_560_000, 1_799_999_999, 1_800_000_000] {
        let (_, dms) = encode_latitude(mag);
        let total = dms.degrees as i64 * 360_000_000
            + dms.minutes as i64 * 6_000_000
            + dms.seconds_num as i64;
        assert_eq!(total, 36 * mag);
    }
}

#[test]
fn encode_altitude_truncates_to_whole_meters() {
    assert_eq!(encode_altitude(10_500), 10);
    assert_eq!(encode_altitude(999), 0);
    assert_eq!(encode_altitude(15_000), 15);
    assert_eq!(encode_altitude(-5_000), 0);
}

#[test]
fn capture_text_normalization() {
    let normalized = normalize_capture_text(&b"1970:01:01 00:02:30".to_vec()).unwrap();
    assert_eq!(normalized, b"1970-01-01T00:02:30Z".to_vec());
    assert_eq!(normalize_capture_text(&b"1970:01:01".to_vec()), None);
}

#[test]
fn plan_image_without_capture_time_skips() {
    let g = sample_run();
    assert_eq!(g.plan_image(None, 0), Ok(ImagePlan::Skip));
}

#[test]
fn plan_image_tags_bracketed_capture() {
    let g = sample_run();
    let capture = b"1970:01:01 00:02:30".to_vec();
    let plan = g.plan_image(Some(&capture), 0).unwrap();
    match plan {
        ImagePlan::Tag(tags) => {
            assert_eq!(tags.lat_ref, Hemisphere::North);
            assert_eq!((tags.lat.degrees, tags.lat.minutes, tags.lat.seconds_num), (10, 0, 0));
            assert_eq!(tags.lon_ref, Hemisphere::East);
            assert_eq!((tags.lon.degrees, tags.lon.minutes, tags.lon.seconds_num), (20, 30, 0));
            assert_eq!(tags.lat.seconds_den, 100_000);
            assert_eq!(tags.lon.seconds_den, 100_000);
            assert_eq!(tags.altitude, Some(10));
        }
        other => panic!("expected a tag plan, got {:?}", other),
    }
}

#[test]
fn plan_image_applies_utc_offset() {
    let g = sample_run();
    let capture = b"1970:01:01 00:02:30".to_vec();
    // Shifting the local capture time back 50 seconds lands exactly on the
    // first fix, which is reported as no fix.
    assert_eq!(g.plan_image(Some(&capture), 50), Ok(ImagePlan::NoFix));
}

#[test]
fn plan_image_unbracketed_capture_is_no_fix() {
    let g = sample_run();
    let capture = b"1970:01:01 01:00:00".to_vec();
    assert_eq!(g.plan_image(Some(&capture), 0), Ok(ImagePlan::NoFix));
}

#[test]
fn plan_image_rejects_malformed_capture() {
    let g = sample_run();
    assert_eq!(
        g.plan_image(Some(&b"1970".to_vec()), 0),
        Err(GeotagError::TimestampParse)
    );
    assert_eq!(
        g.plan_image(Some(&b"abcd:ef:gh ij:kl:mn".to_vec()), 0),
        Err(GeotagError::TimestampParse)
    );
}

#[test]
fn plan_image_is_repeatable() {
    let g = sample_run();
    let capture = b"1970:01:01 00:02:30".to_vec();
    let first = g.plan_image(Some(&capture), 0);
    let second = g.plan_image(Some(&capture), 0);
    assert_eq!(first, second);
}

#[test]
fn local_offset_is_within_one_day() {
    let offset = local_utc_offset();
    assert!(-86_400 < offset && offset < 86_400);
}
