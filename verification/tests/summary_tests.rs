use battsim::config::SimulationConfig;
use battsim::summary::summarize;
use battsim::tick_result::SimulationTickResult;

fn blank(ts: i64) -> SimulationTickResult {
    SimulationTickResult {
        timestamp: ts,
        original_power_kw: 0,
        srl_pos_kwh: 0,
        srl_neg_kwh: 0,
        battery_in_kw: 0,
        battery_out_kw: 0,
        srl_energy_in_kwh: 0,
        srl_energy_out_kwh: 0,
        soc_kwh: 0,
        soc_percent: 0,
        grid_net_kw: 0,
        transformer_violation: false,
        srl_revenue_pos_chf: 0,
        srl_revenue_neg_chf: 0,
        original_grid_kw: 0,
        final_grid_kw: 0,
    }
}

#[test]
fn monthly_saving_from_the_peak_of_one_month() {
    // Two ticks in the same month: 100 kW and 80 kW before, 60 kW after.
    // The month saves its peak reduction of 40 kW, at 10 per kW.
    let mut t1 = blank(0);
    t1.original_grid_kw = 100_000;
    t1.final_grid_kw = 60_000;
    let mut t2 = blank(60_000);
    t2.original_grid_kw = 80_000;
    t2.final_grid_kw = 60_000;
    let s = summarize(&vec![t1, t2], &SimulationConfig::default());
    assert_eq!(s.peak_shaving_savings_chf, 400_000);
}

#[test]
fn monthly_savings_sum_over_distinct_months() {
    // One tick in January 1970, one in February 1970.
    let mut t1 = blank(0);
    t1.original_grid_kw = 100_000;
    t1.final_grid_kw = 60_000;
    let mut t2 = blank(2_678_400_000);
    t2.original_grid_kw = 80_000;
    t2.final_grid_kw = 50_000;
    let s = summarize(&vec![t1, t2], &SimulationConfig::default());
    assert_eq!(s.peak_shaving_savings_chf, 400_000 + 300_000);
}

#[test]
fn months_are_grouped_by_calendar_date_not_by_spacing() {
    // Two instants of January 2000 fall into one month even though they
    // lie further apart than the two neighbouring instants of January and
    // February 1970 above.
    let mut t1 = blank(947_000_000_000);
    t1.original_grid_kw = 100_000;
    t1.final_grid_kw = 60_000;
    let mut t2 = blank(947_638_923_004);
    t2.original_grid_kw = 80_000;
    t2.final_grid_kw = 70_000;
    let s = summarize(&vec![t1, t2], &SimulationConfig::default());
    assert_eq!(s.peak_shaving_savings_chf, 300_000);
}

#[test]
fn negative_saving_counts_as_zero() {
    // The month's peak grew: no saving, but no penalty either.
    let mut t1 = blank(0);
    t1.original_grid_kw = 50_000;
    t1.final_grid_kw = 90_000;
    let s = summarize(&vec![t1], &SimulationConfig::default());
    assert_eq!(s.peak_shaving_savings_chf, 0);
}

#[test]
fn zero_revenue_leaves_amortization_absent() {
    let s = summarize(&vec![blank(0)], &SimulationConfig::default());
    assert_eq!(s.total_srl_revenue_chf, 0);
    assert_eq!(s.peak_shaving_savings_chf, 0);
    assert_eq!(s.amortization_years, None);
}

#[test]
fn amortization_of_exactly_one_year() {
    // Default battery: investment 400 000, operating cost 4 000. Revenue
    // equal to their sum pays back in exactly one year.
    let mut t = blank(0);
    t.srl_revenue_pos_chf = 404_000_000;
    let s = summarize(&vec![t], &SimulationConfig::default());
    assert_eq!(s.amortization_years, Some(1_000));
}

#[test]
fn totals_extremes_violations_and_cycles() {
    let mut c = SimulationConfig::default();
    c.timestep_minutes = 60;
    let mut t1 = blank(0);
    t1.srl_energy_out_kwh = 5_000;
    t1.srl_energy_in_kwh = 3_000;
    t1.battery_out_kw = 2_000;
    t1.soc_kwh = 20_000;
    t1.transformer_violation = true;
    t1.srl_revenue_pos_chf = 100;
    t1.srl_revenue_neg_chf = -30;
    let mut t2 = blank(60_000);
    t2.soc_kwh = 80_000;
    let s = summarize(&vec![t1, t2], &c);
    assert_eq!(s.total_ticks, 2);
    assert_eq!(s.total_srl_out_kwh, 5_000);
    assert_eq!(s.total_srl_in_kwh, 3_000);
    assert_eq!(s.total_ps_out_kwh, 2_000);
    assert_eq!(s.total_ps_in_kwh, 0);
    assert_eq!(s.min_soc_kwh, 20_000);
    assert_eq!(s.max_soc_kwh, 80_000);
    assert_eq!(s.transformer_violations, 1);
    assert_eq!(s.total_srl_revenue_chf, 70);
    // Throughput 10 kWh over a usable range of 60 kWh: one sixth of a
    // half-cycle pair, rounded down in milli-cycles.
    assert_eq!(s.battery_cycles, 83);
}

#[test]
fn ps_energy_uses_the_configured_timestep() {
    let mut c = SimulationConfig::default();
    c.timestep_minutes = 15;
    let mut t = blank(0);
    t.battery_in_kw = 4_000;
    let s = summarize(&vec![t], &c);
    // 4 kW over a quarter of an hour.
    assert_eq!(s.total_ps_in_kwh, 1_000);
}

#[test]
fn empty_run_summary() {
    let s = summarize(&Vec::new(), &SimulationConfig::default());
    assert_eq!(s.total_ticks, 0);
    assert_eq!(s.min_soc_kwh, i64::MAX);
    assert_eq!(s.max_soc_kwh, i64::MIN);
    assert_eq!(s.battery_cycles, 0);
    assert_eq!(s.transformer_violations, 0);
    assert_eq!(s.amortization_years, None);
}

#[test]
fn cycles_zero_when_soc_never_moves() {
    let mut t1 = blank(0);
    t1.soc_kwh = 40_000;
    t1.srl_energy_out_kwh = 5_000;
    let mut t2 = blank(60_000);
    t2.soc_kwh = 40_000;
    let s = summarize(&vec![t1, t2], &SimulationConfig::default());
    assert_eq!(s.battery_cycles, 0);
}
