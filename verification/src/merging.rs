//! Position-wise merge of the two resampled series into one per-tick
//! record, and the composition of grid generation, resampling and merging.
//!
//! The merge pairs element `i` of the load series with element `i` of the
//! balancing series and takes the timestamp from the load series. The two
//! inputs are expected to share one grid already; a length mismatch is not
//! an error but silently truncates to the shorter series, which callers
//! should treat as a warning sign.

use vstd::prelude::*;
use crate::arith::min_spec;
use crate::model::LoadEntry;
use crate::model::SRLEntry;
use crate::model::MergedTick;
use crate::model::load_entry_ok;
use crate::model::srl_entry_ok;
use crate::model::merged_tick_ok;
use crate::interpolation::MS_PER_MINUTE;
use crate::interpolation::STEP_MINUTES_MAX;
use crate::interpolation::generate_time_grid;
use crate::interpolation::grid_point;
use crate::interpolation::interpolate_load_to_1min;
use crate::interpolation::interpolate_srl_to_1min;
use crate::interpolation::resample_load_at;
use crate::interpolation::resample_srl_at;

verus! {

/// The merged record formed from one load sample and one balancing sample.
pub open spec fn merged_of(l: LoadEntry, s: SRLEntry) -> MergedTick {
    MergedTick {
        timestamp: l.timestamp,
        power_kw: l.power_kw,
        srl_pos_kwh: s.pos_energy_kwh,
        srl_neg_kwh: s.neg_energy_kwh,
        srl_pos_price_eur_mwh: s.pos_price_eur_mwh,
        srl_neg_price_eur_mwh: s.neg_price_eur_mwh,
    }
}

/// Zips the two series by position into merged ticks, truncating to the
/// shorter input.
#[verifier::loop_isolation(false)]
pub fn merge_1min_series(load: &Vec<LoadEntry>, srl: &Vec<SRLEntry>) -> (merged: Vec<MergedTick>)
    ensures
        merged@.len() == min_spec(load@.len() as int, srl@.len() as int),
        forall|i: int|
            0 <= i < merged@.len() ==> #[trigger] merged@[i] == merged_of(load@[i], srl@[i]),
{
    let n = if load.len() <= srl.len() {
        load.len()
    } else {
        srl.len()
    };
    let mut merged: Vec<MergedTick> = Vec::new();
    let mut i: usize = 0;
    while i < n
        invariant
            i <= n,
            merged@.len() == i as int,
            forall|k: int|
                0 <= k < i ==> #[trigger] merged@[k] == merged_of(load@[k], srl@[k]),
        decreases n - i,
    {
        merged.push(MergedTick {
            timestamp: load[i].timestamp,
            power_kw: load[i].power_kw,
            srl_pos_kwh: srl[i].pos_energy_kwh,
            srl_neg_kwh: srl[i].neg_energy_kwh,
            srl_pos_price_eur_mwh: srl[i].pos_price_eur_mwh,
            srl_neg_price_eur_mwh: srl[i].neg_price_eur_mwh,
        });
        i = i + 1;
    }
    merged
}

/// Builds the common grid over the load series' time span, resamples both
/// series onto it, and merges them into one per-tick sequence.
pub fn resample_and_merge(load: &Vec<LoadEntry>, srl: &Vec<SRLEntry>, step_minutes: i64) -> (merged: Vec<MergedTick>)
    requires
        forall|i: int| 0 <= i < load@.len() ==> load_entry_ok(#[trigger] load@[i]),
        forall|i: int| 0 <= i < srl@.len() ==> srl_entry_ok(#[trigger] srl@[i]),
        1 <= step_minutes <= STEP_MINUTES_MAX,
    ensures
        load@.len() == 0 ==> merged@.len() == 0,
        load@.len() > 0 ==> {
            let start = load@[0].timestamp as int;
            let end = load@[load@.len() - 1].timestamp as int;
            let step_ms = step_minutes * MS_PER_MINUTE as int;
            &&& end < start ==> merged@.len() == 0
            &&& start <= end ==> merged@.len() == (end - start) / step_ms + 1
            &&& forall|i: int|
                0 <= i < merged@.len() ==> {
                    let t = grid_point(start, step_ms, i);
                    let v = resample_srl_at(srl@, t);
                    &&& (#[trigger] merged@[i]).timestamp == t
                    &&& merged@[i].power_kw == resample_load_at(load@, t)
                    &&& merged@[i].srl_pos_kwh == v.0
                    &&& merged@[i].srl_neg_kwh == v.1
                    &&& merged@[i].srl_pos_price_eur_mwh == v.2
                    &&& merged@[i].srl_neg_price_eur_mwh == v.3
                }
        },
        forall|i: int| 0 <= i < merged@.len() ==> merged_tick_ok(#[trigger] merged@[i]),
{
    if load.len() == 0 {
        return Vec::new();
    }
    let start = load[0].timestamp;
    let end = load[load.len() - 1].timestamp;
    let grid = generate_time_grid(start, end, step_minutes);
    let load_on_grid = interpolate_load_to_1min(load, &grid);
    let srl_on_grid = interpolate_srl_to_1min(srl, &grid);
    merge_1min_series(&load_on_grid, &srl_on_grid)
}

} // verus!
