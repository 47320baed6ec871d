use battsim::interpolation::generate_time_grid;
use battsim::interpolation::interpolate_load_to_1min;
use battsim::interpolation::interpolate_scalar;
use battsim::interpolation::interpolate_srl_to_1min;
use battsim::model::LoadEntry;
use battsim::model::SRLEntry;

fn srl(ts: i64, pos: i64, neg: i64, pp: i64, np: i64) -> SRLEntry {
    SRLEntry {
        timestamp: ts,
        pos_energy_kwh: pos,
        neg_energy_kwh: neg,
        pos_price_eur_mwh: pp,
        neg_price_eur_mwh: np,
    }
}

#[test]
fn interpolate_returns_left_value_at_left_end() {
    assert_eq!(interpolate_scalar(0, 10, 100, 200, 0), 100);
    assert_eq!(interpolate_scalar(-50, 70, -3000, 9000, -50), -3000);
}

#[test]
fn interpolate_returns_right_value_at_right_end() {
    assert_eq!(interpolate_scalar(0, 10, 100, 200, 10), 200);
    assert_eq!(interpolate_scalar(-50, 70, -3000, 9000, 70), 9000);
}

#[test]
fn interpolate_midpoint_is_exact() {
    assert_eq!(interpolate_scalar(0, 10, 100, 200, 5), 150);
    assert_eq!(interpolate_scalar(0, 60000, 1000, 3000, 30000), 2000);
    assert_eq!(interpolate_scalar(0, 4, -100, 300, 2), 100);
}

#[test]
fn interpolate_degenerate_bracket_returns_first_value() {
    assert_eq!(interpolate_scalar(5, 5, 42, 99, 5), 42);
}

#[test]
fn interpolate_quarter_point() {
    // 25 % of the way from 100 to 200.
    assert_eq!(interpolate_scalar(0, 100, 100, 200, 25), 125);
}

#[test]
fn grid_single_point_when_start_equals_end() {
    let g = generate_time_grid(123_456, 123_456, 1);
    assert_eq!(g, vec![123_456]);
}

#[test]
fn grid_ten_minutes_has_eleven_points() {
    let start = 1_000_000;
    let g = generate_time_grid(start, start + 10 * 60_000, 1);
    assert_eq!(g.len(), 11);
    for (i, t) in g.iter().enumerate() {
        assert_eq!(*t, start + (i as i64) * 60_000);
    }
}

#[test]
fn grid_no_drift_after_ten_thousand_steps() {
    let start = 0;
    let g = generate_time_grid(start, 10_000 * 60_000, 1);
    assert_eq!(g.len(), 10_001);
    assert_eq!(g[10_000], 600_000_000);
}

#[test]
fn grid_empty_when_end_before_start() {
    let g = generate_time_grid(100, 99, 1);
    assert!(g.is_empty());
}

#[test]
fn grid_last_point_does_not_pass_end() {
    let g = generate_time_grid(0, 150_000, 1);
    assert_eq!(g, vec![0, 60_000, 120_000]);
}

#[test]
fn resample_onto_own_timestamps_returns_originals_except_last() {
    let input = vec![
        LoadEntry { timestamp: 0, power_kw: 10_000 },
        LoadEntry { timestamp: 60_000, power_kw: 20_000 },
        LoadEntry { timestamp: 120_000, power_kw: 30_000 },
    ];
    let grid = vec![0, 60_000, 120_000];
    let out = interpolate_load_to_1min(&input, &grid);
    assert_eq!(out.len(), 3);
    assert_eq!(out[0].power_kw, 10_000);
    assert_eq!(out[1].power_kw, 20_000);
    // The last grid instant has no later sample to close the bracket, so
    // the resampler zero-fills it.
    assert_eq!(out[2].power_kw, 0);
}

#[test]
fn resample_interpolates_between_samples() {
    let input = vec![
        LoadEntry { timestamp: 0, power_kw: 0 },
        LoadEntry { timestamp: 120_000, power_kw: 120_000 },
    ];
    let grid = vec![30_000, 60_000, 90_000];
    let out = interpolate_load_to_1min(&input, &grid);
    assert_eq!(out[0].power_kw, 30_000);
    assert_eq!(out[1].power_kw, 60_000);
    assert_eq!(out[2].power_kw, 90_000);
    assert_eq!(out[0].timestamp, 30_000);
}

#[test]
fn resample_zero_fills_outside_the_span() {
    let input = vec![
        LoadEntry { timestamp: 60_000, power_kw: 5_000 },
        LoadEntry { timestamp: 120_000, power_kw: 7_000 },
    ];
    let grid = vec![0, 60_000, 180_000];
    let out = interpolate_load_to_1min(&input, &grid);
    assert_eq!(out[0].power_kw, 0);
    assert_eq!(out[1].power_kw, 5_000);
    assert_eq!(out[2].power_kw, 0);
}

#[test]
fn resample_empty_input_zero_fills_everything() {
    let input: Vec<LoadEntry> = Vec::new();
    let grid = vec![0, 60_000];
    let out = interpolate_load_to_1min(&input, &grid);
    assert_eq!(out.len(), 2);
    assert_eq!(out[0].power_kw, 0);
    assert_eq!(out[1].power_kw, 0);
}

#[test]
fn resample_srl_interpolates_all_four_fields_with_one_bracket() {
    let input = vec![
        srl(0, 0, 0, 1000, -2000),
        srl(120_000, 40_000, -20_000, 3000, -4000),
    ];
    let grid = vec![60_000];
    let out = interpolate_srl_to_1min(&input, &grid);
    assert_eq!(out.len(), 1);
    assert_eq!(out[0].timestamp, 60_000);
    assert_eq!(out[0].pos_energy_kwh, 20_000);
    assert_eq!(out[0].neg_energy_kwh, -10_000);
    assert_eq!(out[0].pos_price_eur_mwh, 2000);
    assert_eq!(out[0].neg_price_eur_mwh, -3000);
}

#[test]
fn resample_with_tied_timestamps_takes_the_last_at_or_before() {
    let input = vec![
        LoadEntry { timestamp: 0, power_kw: 10 },
        LoadEntry { timestamp: 60_000, power_kw: 20 },
        LoadEntry { timestamp: 60_000, power_kw: 30 },
        LoadEntry { timestamp: 120_000, power_kw: 40 },
    ];
    let grid = vec![60_000];
    let out = interpolate_load_to_1min(&input, &grid);
    assert_eq!(out[0].power_kw, 30);
}

#[test]
fn interpolate_at_the_extremes_of_the_accepted_ranges() {
    let r = interpolate_scalar(
        -8_000_000_000_000_000,
        8_000_000_000_000_000,
        -100_000_000_000,
        100_000_000_000,
        0,
    );
    assert_eq!(r, 0);
}

#[test]
fn grid_with_the_largest_step() {
    let g = generate_time_grid(0, 60_000_000_000, 1_000_000);
    assert_eq!(g, vec![0, 60_000_000_000]);
}

#[test]
fn resample_srl_zero_fills_after_last_sample() {
    let input = vec![srl(0, 1000, -1000, 50, 60)];
    let grid = vec![0, 60_000];
    let out = interpolate_srl_to_1min(&input, &grid);
    assert_eq!(out[0].pos_energy_kwh, 0);
    assert_eq!(out[1].pos_energy_kwh, 0);
}
