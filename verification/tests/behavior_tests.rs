use pocket_character::behavior::{
    draw_blink_interval, draw_for_tick, draw_saccade, draw_saccade_interval, saccade_base_ms,
    saccade_row, saccade_threshold_at, TrackingMode,
};
use pocket_character::pcg::Pcg32;

fn interval_seconds(row: u32, frac: u32) -> f32 {
    let base = saccade_base_ms(row) as f32;
    (base + frac as f32 / (1u32 << 24) as f32 * 400.0) / 1000.0
}

#[test]
fn saccade_intervals_match_table_bounds() {
    // A simulation seeded with 1 draws its first blink interval, then the
    // saccade intervals follow.
    let mut rng = Pcg32::new(1);
    let _ = draw_blink_interval(&mut rng);
    for _ in 0..200 {
        let i = draw_saccade_interval(&mut rng);
        let s = interval_seconds(i.row, i.frac);
        assert!((0.8..=4.8).contains(&s), "interval {s}");
    }
}

#[test]
fn saccade_rows_follow_the_cumulative_table() {
    assert_eq!(saccade_row(0), 0);
    assert_eq!(saccade_row(1258291), 0);
    assert_eq!(saccade_row(1258292), 1);
    assert_eq!(saccade_row(3103785), 1);
    assert_eq!(saccade_row(3103786), 2);
    assert_eq!(saccade_row(10485760), 5);
    assert_eq!(saccade_row(11995709), 8);
    assert_eq!(saccade_row(11995710), 9);
    assert_eq!(saccade_row((1 << 24) - 1), 9);
}

#[test]
fn saccade_thresholds_match_the_single_precision_table() {
    let cdf: [f32; 10] = [0.075, 0.185, 0.310, 0.450, 0.575, 0.625, 0.665, 0.695, 0.715, 1.0];
    for (i, p) in cdf.iter().enumerate() {
        let t = saccade_threshold_at(i as u32);
        // A unit draw k / 2^24 is at most p exactly when k is at most t.
        assert!((t as f64) / 16777216.0 <= *p as f64);
        if t < (1 << 24) {
            assert!(((t + 1) as f64) / 16777216.0 > *p as f64);
        }
    }
    // Row selection agrees with the floating-point comparison everywhere.
    for k in (0u32..(1 << 24)).step_by(997) {
        let r = (k as f32) / 16777216.0;
        let row = cdf.iter().position(|&p| r <= p).unwrap_or(9) as u32;
        assert_eq!(saccade_row(k), row);
    }
}

#[test]
fn saccade_base_intervals() {
    assert_eq!(saccade_base_ms(0), 800);
    assert_eq!(saccade_base_ms(1), 1200);
    assert_eq!(saccade_base_ms(9), 4400);
}

#[test]
fn saccade_draws_take_four_outputs_in_order() {
    let mut rng = Pcg32::new(1);
    let mut reference = Pcg32::new(1);
    let d = draw_saccade(&mut rng);
    assert_eq!(d.jitter_x, reference.next_u24());
    assert_eq!(d.jitter_y, reference.next_u24());
    assert_eq!(d.interval.row, saccade_row(reference.next_u24()));
    assert_eq!(d.interval.frac, reference.next_u24());
    assert_eq!(rng.next_u32(), reference.next_u32());
}

#[test]
fn seed_one_draws_known_values() {
    let mut rng = Pcg32::new(1);
    assert_eq!(draw_blink_interval(&mut rng), 14911781);
    let d = draw_saccade(&mut rng);
    assert_eq!(d.jitter_x, 2475591);
    assert_eq!(d.jitter_y, 13163034);
    assert_eq!(d.interval.row, 9);
    assert_eq!(d.interval.frac, 9294493);
}

#[test]
fn tick_draws_blink_first_then_saccade() {
    let mut rng = Pcg32::new(3);
    let mut reference = Pcg32::new(3);
    let t = draw_for_tick(&mut rng, true, TrackingMode::Idle, true);
    assert_eq!(t.blink_interval, Some(draw_blink_interval(&mut reference)));
    assert_eq!(t.saccade, Some(draw_saccade(&mut reference)));
    assert_eq!(rng.next_u32(), reference.next_u32());
}

#[test]
fn mouse_tracking_draws_no_saccade() {
    let mut rng = Pcg32::new(3);
    let mut reference = Pcg32::new(3);
    let t = draw_for_tick(&mut rng, false, TrackingMode::Mouse, true);
    assert_eq!(t.blink_interval, None);
    assert_eq!(t.saccade, None);
    assert_eq!(rng.next_u32(), reference.next_u32());
}

#[test]
fn quiet_tick_draws_nothing() {
    let mut rng = Pcg32::new(9);
    let mut reference = Pcg32::new(9);
    let t = draw_for_tick(&mut rng, false, TrackingMode::Idle, false);
    assert_eq!(t.blink_interval, None);
    assert_eq!(t.saccade, None);
    assert_eq!(rng.next_u32(), reference.next_u32());
}

#[test]
fn tracking_names_round_trip() {
    assert_eq!(TrackingMode::Idle.name(), "none");
    assert_eq!(TrackingMode::Mouse.name(), "mouse");
    for m in [TrackingMode::Idle, TrackingMode::Mouse] {
        assert_eq!(TrackingMode::from_name(m.name()), m);
    }
    assert_eq!(TrackingMode::from_name("Mouse"), TrackingMode::Idle);
    assert_eq!(TrackingMode::from_name(""), TrackingMode::Idle);
    assert_eq!(TrackingMode::from_name("mouse "), TrackingMode::Idle);
}

#[test]
fn blink_intervals_stay_in_window() {
    let mut rng = Pcg32::new(42);
    for _ in 0..1000 {
        let k = draw_blink_interval(&mut rng);
        let seconds = 1.0f32 + (k as f32 / 16777216.0) * 5.0;
        assert!((1.0..=6.0).contains(&seconds));
    }
}
