//! The per-tick outcome record emitted by the dispatch engine.

use vstd::prelude::*;
use crate::model::timestamp_ok;
use crate::SAMPLE_ABS_MAX;

verus! {

/// Largest magnitude any numeric field of a tick result may carry; wide
/// enough for every value the engine can emit and narrow enough for the
/// summarizer's running sums.
pub const TICK_ABS_MAX: i64 = 100_000_000_000_000_000;

/// Everything the engine decides and observes in one tick. Powers are in
/// milli-kW, energies in milli-kWh, revenues in milli-currency, the state
/// of charge share in milli-percent.
#[derive(Clone, Copy, Debug, PartialEq, Eq, Structural)]
pub struct SimulationTickResult {
    /// Milliseconds since the Unix epoch.
    pub timestamp: i64,
    /// Site draw before any battery action, milli-kW.
    pub original_power_kw: i64,
    /// Discharge-response energy requested this tick, milli-kWh.
    pub srl_pos_kwh: i64,
    /// Charge-response energy requested this tick, milli-kWh.
    pub srl_neg_kwh: i64,
    /// Peak-shaving charge power, milli-kW.
    pub battery_in_kw: i64,
    /// Peak-shaving discharge power, milli-kW.
    pub battery_out_kw: i64,
    /// Balancing energy absorbed from the grid, milli-kWh.
    pub srl_energy_in_kwh: i64,
    /// Balancing energy delivered to the grid, milli-kWh.
    pub srl_energy_out_kwh: i64,
    /// State of charge after this tick, milli-kWh.
    pub soc_kwh: i64,
    /// State of charge as a share of the usable range, milli-percent.
    pub soc_percent: i64,
    /// Net grid power after all battery action, milli-kW.
    pub grid_net_kw: i64,
    /// Whether the net grid power magnitude passed the transformer limit.
    pub transformer_violation: bool,
    /// Revenue from delivered balancing energy, milli-currency.
    pub srl_revenue_pos_chf: i64,
    /// Revenue from absorbed balancing energy, milli-currency.
    pub srl_revenue_neg_chf: i64,
    /// Grid power before battery action, milli-kW.
    pub original_grid_kw: i64,
    /// Grid power after battery action, milli-kW.
    pub final_grid_kw: i64,
}

/// Bounds under which the summarizer's running sums stay inside `i128`.
pub open spec fn tick_result_ok(r: SimulationTickResult) -> bool {
    &&& timestamp_ok(r.timestamp as int)
    &&& -TICK_ABS_MAX <= r.original_power_kw <= TICK_ABS_MAX
    &&& -TICK_ABS_MAX <= r.srl_pos_kwh <= TICK_ABS_MAX
    &&& -TICK_ABS_MAX <= r.srl_neg_kwh <= TICK_ABS_MAX
    &&& -SAMPLE_ABS_MAX <= r.battery_in_kw <= SAMPLE_ABS_MAX
    &&& -SAMPLE_ABS_MAX <= r.battery_out_kw <= SAMPLE_ABS_MAX
    &&& -TICK_ABS_MAX <= r.srl_energy_in_kwh <= TICK_ABS_MAX
    &&& -TICK_ABS_MAX <= r.srl_energy_out_kwh <= TICK_ABS_MAX
    &&& -TICK_ABS_MAX <= r.soc_kwh <= TICK_ABS_MAX
    &&& -TICK_ABS_MAX <= r.soc_percent <= TICK_ABS_MAX
    &&& -TICK_ABS_MAX <= r.grid_net_kw <= TICK_ABS_MAX
    &&& -TICK_ABS_MAX <= r.srl_revenue_pos_chf <= TICK_ABS_MAX
    &&& -TICK_ABS_MAX <= r.srl_revenue_neg_chf <= TICK_ABS_MAX
    &&& -TICK_ABS_MAX <= r.original_grid_kw <= TICK_ABS_MAX
    &&& -TICK_ABS_MAX <= r.final_grid_kw <= TICK_ABS_MAX
}

} // verus!
