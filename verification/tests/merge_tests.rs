use battsim::merging::merge_1min_series;
use battsim::merging::resample_and_merge;
use battsim::model::LoadEntry;
use battsim::model::SRLEntry;

fn srl(ts: i64, pos: i64, neg: i64, pp: i64, np: i64) -> SRLEntry {
    SRLEntry {
        timestamp: ts,
        pos_energy_kwh: pos,
        neg_energy_kwh: neg,
        pos_price_eur_mwh: pp,
        neg_price_eur_mwh: np,
    }
}

#[test]
fn merge_pairs_by_position_taking_load_timestamp() {
    let load = vec![
        LoadEntry { timestamp: 0, power_kw: 1_000 },
        LoadEntry { timestamp: 60_000, power_kw: 2_000 },
    ];
    let balancing = vec![srl(5, 10, -20, 30, 40), srl(6, 11, -21, 31, 41)];
    let merged = merge_1min_series(&load, &balancing);
    assert_eq!(merged.len(), 2);
    assert_eq!(merged[0].timestamp, 0);
    assert_eq!(merged[0].power_kw, 1_000);
    assert_eq!(merged[0].srl_pos_kwh, 10);
    assert_eq!(merged[0].srl_neg_kwh, -20);
    assert_eq!(merged[0].srl_pos_price_eur_mwh, 30);
    assert_eq!(merged[0].srl_neg_price_eur_mwh, 40);
    assert_eq!(merged[1].timestamp, 60_000);
    assert_eq!(merged[1].srl_pos_kwh, 11);
}

#[test]
fn merge_truncates_to_the_shorter_series() {
    let load = vec![
        LoadEntry { timestamp: 0, power_kw: 1 },
        LoadEntry { timestamp: 1, power_kw: 2 },
        LoadEntry { timestamp: 2, power_kw: 3 },
    ];
    let balancing = vec![srl(0, 7, 0, 0, 0)];
    assert_eq!(merge_1min_series(&load, &balancing).len(), 1);
    let merged = merge_1min_series(&load, &balancing);
    assert_eq!(merged[0].power_kw, 1);
    assert_eq!(merged[0].srl_pos_kwh, 7);

    let empty: Vec<SRLEntry> = Vec::new();
    assert!(merge_1min_series(&load, &empty).is_empty());
}

#[test]
fn resample_and_merge_composes_grid_resampling_and_merge() {
    let load = vec![
        LoadEntry { timestamp: 0, power_kw: 0 },
        LoadEntry { timestamp: 120_000, power_kw: 120_000 },
    ];
    let balancing = vec![
        srl(0, 0, 0, 0, 0),
        srl(120_000, 12_000, -24_000, 1200, -600),
    ];
    let merged = resample_and_merge(&load, &balancing, 1);
    // Grid: 0, 60000, 120000.
    assert_eq!(merged.len(), 3);
    assert_eq!(merged[0].timestamp, 0);
    assert_eq!(merged[1].timestamp, 60_000);
    assert_eq!(merged[2].timestamp, 120_000);
    assert_eq!(merged[1].power_kw, 60_000);
    assert_eq!(merged[1].srl_pos_kwh, 6_000);
    assert_eq!(merged[1].srl_neg_kwh, -12_000);
    assert_eq!(merged[1].srl_pos_price_eur_mwh, 600);
    assert_eq!(merged[1].srl_neg_price_eur_mwh, -300);
    // The last grid instant has no later sample in either series.
    assert_eq!(merged[2].power_kw, 0);
    assert_eq!(merged[2].srl_pos_kwh, 0);
}

#[test]
fn resample_and_merge_empty_load_gives_empty_run() {
    let load: Vec<LoadEntry> = Vec::new();
    let balancing = vec![srl(0, 1, -1, 2, -2)];
    assert!(resample_and_merge(&load, &balancing, 1).is_empty());
}
