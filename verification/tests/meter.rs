use openay_mic::vu::{
    pps, segment_db, segment_tone, vu_segments, zone_for, Level, PacketRate, Tone, VuBallistics,
    Zone,
    AMBER_SEGMENTS, AMBER_START, CREAM_SEGMENTS, RED_SEGMENTS, RED_START, SEGMENTS, SEGMENT_DB,
};

const SECOND: u64 = 1_000_000;

/// A linear level as the meter takes it: whole millionths of a decibel, rounded
/// down, so that it reaches the same thresholds.
fn level(l: f32) -> Level {
    if l <= 0.0 {
        None
    } else {
        Some((f64::from(20.0 * l.log10()) * 1e6).floor() as i64)
    }
}

/// A level in decibels, by way of the linear level.
fn db(x: f32) -> Level {
    level(10.0f32.powf(x / 20.0))
}

fn to_db(l: Level) -> f64 {
    match l {
        Some(l) => l as f64 / 1e6,
        None => -120.0,
    }
}

#[test]
fn segment_table_has_exactly_24_entries() {
    assert_eq!(SEGMENT_DB.len(), SEGMENTS);
    assert_eq!(CREAM_SEGMENTS + AMBER_SEGMENTS + RED_SEGMENTS, SEGMENTS);
    assert_eq!(AMBER_START, CREAM_SEGMENTS);
    assert_eq!(segment_db(0), -120);
    assert_eq!(segment_db(23), -1);
}

#[test]
fn thresholds_are_weakly_decreasing() {
    for w in SEGMENT_DB.windows(2) {
        assert!(
            w[1] >= w[0],
            "threshold must not decrease: {} < {}",
            w[1],
            w[0]
        );
    }
}

#[test]
fn clip_zone_begins_at_minus_3_db() {
    assert_eq!(RED_START, 21);
    assert_eq!(SEGMENT_DB[RED_START] as f64, -3.0, "red zone starts at -3 dB");
}

#[test]
fn silence_lights_nothing() {
    assert_eq!(vu_segments(level(0.0)), 0);
    assert_eq!(vu_segments(level(-1.0)), 0);
    assert_eq!(zone_for(level(0.0)), Zone::Off);
}

#[test]
fn full_scale_lights_everything() {
    assert_eq!(vu_segments(level(1.0)), SEGMENTS);
    assert_eq!(zone_for(level(1.0)), Zone::Red);
}

#[test]
fn boundary_just_below_threshold() {
    assert_eq!(vu_segments(db(-3.0)), RED_START + 1);
    let just_below = db(-3.0 - 1e-4);
    assert_eq!(vu_segments(just_below), RED_START);
    assert_eq!(zone_for(just_below), Zone::Amber);
}

#[test]
fn boundary_at_full_scale() {
    assert_eq!(vu_segments(level(1.0)), SEGMENTS);
    assert_eq!(vu_segments(db(-1.0)), SEGMENTS - 1);
}

#[test]
fn zone_transitions() {
    assert_eq!(zone_for(db(-12.0)), Zone::Cream);
    assert_eq!(zone_for(db(-9.0)), Zone::Amber);
    assert_eq!(zone_for(db(-5.0)), Zone::Amber);
    assert_eq!(zone_for(db(-2.0)), Zone::Red);
}

#[test]
fn ballistics_attack_is_instant() {
    let mut b = VuBallistics::default();
    b.update(level(0.5), SECOND);
    assert_eq!(b.level(), level(0.5));
}

#[test]
fn ballistics_decay_is_12_db_per_second() {
    let mut b = VuBallistics::new(level(0.5));
    let before = to_db(b.level());
    let after_db = to_db(b.update(level(0.0), SECOND));
    let delta = before - after_db;
    assert!(
        (delta - 12.0).abs() < 0.1,
        "expected ~12 dB decay over 1 s, got {delta}"
    );
}

#[test]
fn ballistics_decay_half_second() {
    let mut b = VuBallistics::new(level(0.5));
    let after_db = to_db(b.update(level(0.0), SECOND / 2));
    assert!((after_db - (-12.02)).abs() < 0.1, "got {after_db}");
}

#[test]
fn ballistics_never_goes_negative_and_snaps_to_floor() {
    let mut b = VuBallistics::new(db(-30.0));
    let l = b.update(level(0.0), 5 * SECOND);
    assert_eq!(l, level(0.0));
    assert_eq!(b.update(level(0.0), 100 * SECOND), level(0.0));
}

#[test]
fn ballistics_clamps_peak_input() {
    let mut b = VuBallistics::default();
    b.update(level(2.0), 0);
    assert_eq!(b.level(), level(1.0));
}

#[test]
fn ballistics_peak_hold_attacks_instantly_and_holds() {
    let mut b = VuBallistics::default();
    b.update(level(0.5), SECOND);
    assert_eq!(b.hold_level(), level(0.5));
    assert_eq!(b.hold_segments(), vu_segments(level(0.5)));

    b.update(level(0.5), SECOND / 10);
    assert!(b.hold_level() >= b.level());

    let mut b = VuBallistics::new(level(0.5));
    b.update(level(0.0), SECOND / 2);
    let level_db = to_db(b.level());
    let hold_db = to_db(b.hold_level());
    assert!(
        (level_db - (-12.02)).abs() < 0.1,
        "reading decays at 12 dB/s, got {level_db}"
    );
    assert!(
        (hold_db - (-8.02)).abs() < 0.1,
        "hold decays at 4 dB/s, got {hold_db}"
    );
    assert!(hold_db > level_db, "hold must lag behind the reading");
    assert!(
        b.hold_segments() >= vu_segments(b.level()),
        "hold must never mark fewer segments than the reading"
    );
}

#[test]
fn ballistics_peak_hold_never_goes_negative() {
    let mut b = VuBallistics::new(db(-30.0));
    b.update(level(0.0), 100 * SECOND);
    assert_eq!(b.level(), level(0.0));
    assert_eq!(b.hold_level(), level(0.0));
    assert_eq!(b.hold_segments(), 0);
}

#[test]
fn pps_from_counter_deltas() {
    let per_second = |r: PacketRate| r.packets as f64 * 1e6 / r.micros as f64;
    assert!((per_second(pps(480, 1_000_000)) - 480.0).abs() < 1e-6);
    assert!((per_second(pps(48, 100_000)) - 480.0).abs() < 1e-6);
    assert_eq!(per_second(pps(100, 0)), 0.0);
    assert_eq!(per_second(pps(100, -1_000_000)), 0.0);
    assert_eq!(per_second(pps(0, 1_000_000)), 0.0);
    assert!((per_second(pps(1, 3_000_000)) - 1.0 / 3.0).abs() < 1e-12);
    assert_eq!(pps(48, 100_000).rounded(), 480);
    assert_eq!(pps(1, 3_000_000).rounded(), 0, "a third rounds down");
    assert_eq!(pps(2, 3_000_000).rounded(), 1, "two thirds round up");
}

#[test]
fn reading_that_rises_late_takes_the_marker_along() {
    let mut b = VuBallistics::new(db(-50.0));
    b.update(db(-55.0), SECOND / 10);
    assert!(b.hold_segments() >= vu_segments(b.level()));
    b.update(db(-40.0), SECOND);
    assert_eq!(b.hold_level(), db(-40.0));
}

#[test]
fn segments_take_their_tones() {
    assert_eq!(segment_tone(0, 20, 20, true), Tone::Cream);
    assert_eq!(segment_tone(18, 20, 20, true), Tone::Amber);
    assert_eq!(segment_tone(21, 24, 24, true), Tone::Tally);
    assert_eq!(segment_tone(5, 3, 3, true), Tone::Line);
    assert_eq!(segment_tone(5, 3, 6, true), Tone::Cream, "the marker");
    assert_eq!(segment_tone(5, 3, 6, false), Tone::Line, "no marker without audio");
    assert_eq!(segment_tone(4, 3, 6, true), Tone::Line, "the marker is one segment");
}
