use battsim::config::SimulationConfig;
use battsim::engine::run_simulation;
use battsim::merging::resample_and_merge;
use battsim::model::LoadEntry;
use battsim::model::SRLEntry;
use battsim::summary::summarize;
use battsim::utils::file_exists;

#[test]
fn full_pipeline_small_run() {
    // A two-hour load curve sampled hourly, a flat balancing series, a
    // one-minute grid: resample, merge, dispatch, summarize.
    let load = vec![
        LoadEntry { timestamp: 0, power_kw: 60_000 },
        LoadEntry { timestamp: 3_600_000, power_kw: 60_000 },
        LoadEntry { timestamp: 7_200_000, power_kw: 60_000 },
    ];
    let balancing = vec![
        SRLEntry {
            timestamp: 0,
            pos_energy_kwh: 0,
            neg_energy_kwh: 0,
            pos_price_eur_mwh: 0,
            neg_price_eur_mwh: 0,
        },
        SRLEntry {
            timestamp: 7_200_000,
            pos_energy_kwh: 0,
            neg_energy_kwh: 0,
            pos_price_eur_mwh: 0,
            neg_price_eur_mwh: 0,
        },
    ];
    let merged = resample_and_merge(&load, &balancing, 1);
    assert_eq!(merged.len(), 121);
    assert_eq!(merged[0].power_kw, 60_000);
    assert_eq!(merged[60].power_kw, 60_000);
    // The final grid instant zero-fills: no later sample closes it.
    assert_eq!(merged[120].power_kw, 0);

    let config = SimulationConfig {
        capacity_kwh: 100_000,
        c_rate: 1000,
        efficiency: 1000,
        min_soc_frac: 0,
        initial_soc_frac: 1000,
        reserve_fraction: 0,
        transformer_limit_kw: 240_000,
        timestep_minutes: 1,
        battery_price_per_kwh_chf: 400_000,
        operating_cost_rate: 10,
    };
    let results = run_simulation(&merged, &config);
    assert_eq!(results.len(), 121);
    // Every minute shaves one minute of the 60 kW draw: 1 kWh each.
    assert_eq!(results[0].battery_out_kw, 60_000);
    assert_eq!(results[0].soc_kwh, 99_000);
    assert_eq!(results[0].grid_net_kw, 0);

    let summary = summarize(&results, &config);
    assert_eq!(summary.total_ticks, 121);
    assert_eq!(summary.transformer_violations, 0);
    assert_eq!(summary.max_soc_kwh, 99_000);
    // 120 minutes of 60 kW fully shaved: 120 kWh in total... but the
    // battery only holds 100 kWh, so the last minutes go unshaved.
    assert_eq!(summary.min_soc_kwh, 0);
}

#[test]
fn file_exists_denies_a_missing_path() {
    assert!(!file_exists("no_such_file_around_here.xyz"));
}
