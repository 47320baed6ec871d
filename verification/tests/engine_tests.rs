use battsim::config::SimulationConfig;
use battsim::engine::run_simulation;
use battsim::model::MergedTick;

fn cfg_a() -> SimulationConfig {
    // 100 kWh, 1 C, lossless, no floor, no reserve, hour-long ticks,
    // half-full start.
    SimulationConfig {
        capacity_kwh: 100_000,
        c_rate: 1000,
        efficiency: 1000,
        min_soc_frac: 0,
        initial_soc_frac: 500,
        reserve_fraction: 0,
        transformer_limit_kw: 240_000,
        timestep_minutes: 60,
        battery_price_per_kwh_chf: 400_000,
        operating_cost_rate: 10,
    }
}

fn tick(power_kw: i64, pos: i64, neg: i64, pp: i64, np: i64) -> MergedTick {
    MergedTick {
        timestamp: 0,
        power_kw,
        srl_pos_kwh: pos,
        srl_neg_kwh: neg,
        srl_pos_price_eur_mwh: pp,
        srl_neg_price_eur_mwh: np,
    }
}

#[test]
fn scenario_full_peak_shave_lossless() {
    // 50 kW of draw for one hour against a half-full lossless battery:
    // the battery covers all of it and ends empty.
    let ticks = vec![tick(50_000, 0, 0, 0, 0)];
    let r = run_simulation(&ticks, &cfg_a());
    assert_eq!(r.len(), 1);
    assert_eq!(r[0].battery_out_kw, 50_000);
    assert_eq!(r[0].battery_in_kw, 0);
    assert_eq!(r[0].soc_kwh, 0);
    assert_eq!(r[0].grid_net_kw, 0);
    assert_eq!(r[0].final_grid_kw, 0);
    assert_eq!(r[0].original_grid_kw, 50_000);
    assert!(!r[0].transformer_violation);
    assert_eq!(r[0].soc_percent, 0);
}

#[test]
fn scenario_tight_limit_no_violation_when_fully_shaved() {
    // Same run under a 10 kW transformer limit: shaving brings the net
    // grid power to zero, so even the tight limit is respected.
    let mut c = cfg_a();
    c.transformer_limit_kw = 10_000;
    let ticks = vec![tick(50_000, 0, 0, 0, 0)];
    let r = run_simulation(&ticks, &c);
    assert_eq!(r[0].grid_net_kw, 0);
    assert!(!r[0].transformer_violation);
}

#[test]
fn scenario_full_reserve_blocks_peak_shaving() {
    // The whole usable range is reserved for balancing duty: peak shaving
    // can neither discharge on a draw nor charge on an export.
    let c = SimulationConfig {
        capacity_kwh: 10_000,
        c_rate: 1000,
        efficiency: 900,
        min_soc_frac: 0,
        initial_soc_frac: 500,
        reserve_fraction: 1000,
        transformer_limit_kw: 240_000,
        timestep_minutes: 60,
        battery_price_per_kwh_chf: 400_000,
        operating_cost_rate: 10,
    };
    let ticks = vec![tick(5_000, 0, 0, 0, 0), tick(-5_000, 0, 0, 0, 0)];
    let r = run_simulation(&ticks, &c);
    assert_eq!(r[0].battery_out_kw, 0);
    assert_eq!(r[0].battery_in_kw, 0);
    assert_eq!(r[0].grid_net_kw, 5_000);
    assert_eq!(r[1].battery_out_kw, 0);
    assert_eq!(r[1].battery_in_kw, 0);
    assert_eq!(r[1].grid_net_kw, -5_000);
    assert_eq!(r[1].soc_kwh, 5_000);
}

#[test]
fn srl_discharge_applies_efficiency_and_caps_by_headroom() {
    let mut c = cfg_a();
    c.efficiency = 900;
    // Headroom 50 kWh delivers only 45 kWh after the efficiency loss, and
    // draining it costs the full 50 kWh of stored energy.
    let ticks = vec![tick(0, 60_000, 0, 100_000, 0)];
    let r = run_simulation(&ticks, &c);
    assert_eq!(r[0].srl_energy_out_kwh, 45_000);
    assert_eq!(r[0].srl_energy_in_kwh, 0);
    assert_eq!(r[0].soc_kwh, 0);
    // 45 kWh at 100 EUR/MWh.
    assert_eq!(r[0].srl_revenue_pos_chf, 4_500);
    assert_eq!(r[0].battery_out_kw, 0);
}

#[test]
fn srl_discharge_fulfills_small_request_exactly() {
    let ticks = vec![tick(0, 20_000, 0, 100_000, 0)];
    let r = run_simulation(&ticks, &cfg_a());
    assert_eq!(r[0].srl_energy_out_kwh, 20_000);
    assert_eq!(r[0].soc_kwh, 30_000);
    assert_eq!(r[0].srl_revenue_pos_chf, 2_000);
}

#[test]
fn srl_charge_applies_efficiency_and_flips_negative_price() {
    let mut c = cfg_a();
    c.efficiency = 900;
    let ticks = vec![tick(0, 0, -10_000, 0, -50_000)];
    let r = run_simulation(&ticks, &c);
    assert_eq!(r[0].srl_energy_in_kwh, 10_000);
    assert_eq!(r[0].srl_energy_out_kwh, 0);
    // Only 9 kWh of the absorbed 10 kWh lands in the battery.
    assert_eq!(r[0].soc_kwh, 59_000);
    // Absorbing at a negative price earns money.
    assert_eq!(r[0].srl_revenue_neg_chf, 500);
    assert_eq!(r[0].soc_percent, 59_000);
}

#[test]
fn srl_positive_request_takes_precedence_over_negative() {
    let ticks = vec![tick(0, 1_000, -1_000, 0, 0)];
    let r = run_simulation(&ticks, &cfg_a());
    assert_eq!(r[0].srl_energy_out_kwh, 1_000);
    assert_eq!(r[0].srl_energy_in_kwh, 0);
}

#[test]
fn soc_never_leaves_the_allowed_band() {
    let mut c = cfg_a();
    c.min_soc_frac = 100;
    // Three hours of draw far beyond what the battery may give.
    let ticks = vec![
        tick(200_000, 0, 0, 0, 0),
        tick(200_000, 0, 0, 0, 0),
        tick(200_000, 0, 0, 0, 0),
    ];
    let r = run_simulation(&ticks, &c);
    for res in &r {
        assert!(res.soc_kwh >= 10_000);
        assert!(res.soc_kwh <= 100_000);
    }
    // The first tick drains down to the floor, then nothing more is given.
    assert_eq!(r[0].soc_kwh, 10_000);
    assert_eq!(r[0].battery_out_kw, 40_000);
    assert_eq!(r[1].battery_out_kw, 0);
}

#[test]
fn clamp_lifts_a_start_below_the_floor() {
    let mut c = cfg_a();
    c.min_soc_frac = 500;
    c.initial_soc_frac = 0;
    let ticks = vec![tick(0, 0, 0, 0, 0)];
    let r = run_simulation(&ticks, &c);
    assert_eq!(r[0].soc_kwh, 50_000);
}

#[test]
fn violation_flagged_without_curtailing() {
    // A battery of no capacity cannot shave; the limit is passed and only
    // reported.
    let c = SimulationConfig {
        capacity_kwh: 0,
        c_rate: 1000,
        efficiency: 1000,
        min_soc_frac: 0,
        initial_soc_frac: 0,
        reserve_fraction: 0,
        transformer_limit_kw: 10_000,
        timestep_minutes: 60,
        battery_price_per_kwh_chf: 400_000,
        operating_cost_rate: 10,
    };
    let ticks = vec![tick(50_000, 0, 0, 0, 0)];
    let r = run_simulation(&ticks, &c);
    assert_eq!(r[0].grid_net_kw, 50_000);
    assert!(r[0].transformer_violation);
    // An empty usable range reports zero percent instead of dividing.
    assert_eq!(r[0].soc_percent, 0);
}

#[test]
fn export_charges_the_battery() {
    let ticks = vec![tick(-30_000, 0, 0, 0, 0)];
    let r = run_simulation(&ticks, &cfg_a());
    assert_eq!(r[0].battery_in_kw, 30_000);
    assert_eq!(r[0].soc_kwh, 80_000);
    assert_eq!(r[0].grid_net_kw, 0);
}

#[test]
fn srl_then_peak_shaving_in_one_tick_uses_threaded_state() {
    // The balancing discharge runs first; peak shaving sees the reduced
    // state of charge.
    let ticks = vec![tick(20_000, 40_000, 0, 0, 0)];
    let r = run_simulation(&ticks, &cfg_a());
    assert_eq!(r[0].srl_energy_out_kwh, 40_000);
    // 10 kWh remain for shaving the 20 kWh of desired discharge.
    assert_eq!(r[0].battery_out_kw, 10_000);
    assert_eq!(r[0].soc_kwh, 0);
    assert_eq!(r[0].grid_net_kw, 10_000);
}

#[test]
fn stored_energy_is_conserved_over_a_lossless_run() {
    // With no efficiency loss and hour-long ticks, the change of the
    // state of charge equals the summed charge and discharge energies
    // read off the emitted records.
    let ticks = vec![
        tick(-30_000, 0, 0, 0, 0),
        tick(20_000, 0, 0, 0, 0),
        tick(0, 10_000, 0, 0, 0),
    ];
    let c = cfg_a();
    let r = run_simulation(&ticks, &c);
    let mut delta: i64 = 0;
    for res in &r {
        delta += res.battery_in_kw * c.timestep_minutes / 60;
        delta -= res.battery_out_kw * c.timestep_minutes / 60;
        delta += res.srl_energy_in_kwh;
        delta -= res.srl_energy_out_kwh;
    }
    // Initial state of charge: half of 100 kWh.
    assert_eq!(r[2].soc_kwh - 50_000, delta);
    assert_eq!(r[0].soc_kwh, 80_000);
    assert_eq!(r[1].soc_kwh, 60_000);
    assert_eq!(r[2].soc_kwh, 50_000);
}

#[test]
fn default_config_is_the_documented_one() {
    let c = SimulationConfig::default();
    assert_eq!(c.capacity_kwh, 1_000_000);
    assert_eq!(c.c_rate, 1000);
    assert_eq!(c.efficiency, 950);
    assert_eq!(c.min_soc_frac, 100);
    assert_eq!(c.initial_soc_frac, 500);
    assert_eq!(c.reserve_fraction, 500);
    assert_eq!(c.transformer_limit_kw, 240_000);
    assert_eq!(c.timestep_minutes, 1);
    assert_eq!(c.battery_price_per_kwh_chf, 400_000);
    assert_eq!(c.operating_cost_rate, 10);
}
