//! Record types for the measured series and the merged per-tick series.
//!
//! Power is in milli-kW, energy in milli-kWh, prices in milli-EUR per MWh,
//! timestamps in milliseconds since the Unix epoch. Values read from the
//! outside are validated against `SAMPLE_ABS_MAX` and `TIMESTAMP_ABS_MAX`
//! before they reach this core, so every function here may assume them.

use vstd::prelude::*;
use crate::SAMPLE_ABS_MAX;
use crate::TIMESTAMP_ABS_MAX;

verus! {

/// One measured sample of the site's power demand.
#[derive(Clone, Copy, Debug, PartialEq, Eq, Structural)]
pub struct LoadEntry {
    /// Milliseconds since the Unix epoch.
    pub timestamp: i64,
    /// Site draw in milli-kW; positive is draw, negative is export.
    pub power_kw: i64,
}

/// One sample of the balancing-energy ("SRL") series.
#[derive(Clone, Copy, Debug, PartialEq, Eq, Structural)]
pub struct SRLEntry {
    /// Milliseconds since the Unix epoch.
    pub timestamp: i64,
    /// Discharge-response energy on offer, milli-kWh, non-negative by convention.
    pub pos_energy_kwh: i64,
    /// Charge-response energy on offer, milli-kWh, non-positive by convention.
    pub neg_energy_kwh: i64,
    /// Price for delivered energy, milli-EUR per MWh.
    pub pos_price_eur_mwh: i64,
    /// Price for absorbed energy, milli-EUR per MWh.
    pub neg_price_eur_mwh: i64,
}

/// One instant of the two series joined onto the common grid.
#[derive(Clone, Copy, Debug, PartialEq, Eq, Structural)]
pub struct MergedTick {
    /// Milliseconds since the Unix epoch.
    pub timestamp: i64,
    /// Site draw in milli-kW.
    pub power_kw: i64,
    /// Discharge-response energy requested this tick, milli-kWh.
    pub srl_pos_kwh: i64,
    /// Charge-response energy requested this tick, milli-kWh (non-positive).
    pub srl_neg_kwh: i64,
    /// Price for delivered energy, milli-EUR per MWh.
    pub srl_pos_price_eur_mwh: i64,
    /// Price for absorbed energy, milli-EUR per MWh.
    pub srl_neg_price_eur_mwh: i64,
}

/// A value within the magnitude the core accepts for series data.
pub open spec fn sample_ok(v: int) -> bool {
    -SAMPLE_ABS_MAX <= v <= SAMPLE_ABS_MAX
}

/// A timestamp the calendar conversion accepts.
pub open spec fn timestamp_ok(t: int) -> bool {
    -TIMESTAMP_ABS_MAX <= t <= TIMESTAMP_ABS_MAX
}

/// Well-formed load sample: a valid timestamp and a bounded reading.
pub open spec fn load_entry_ok(e: LoadEntry) -> bool {
    &&& timestamp_ok(e.timestamp as int)
    &&& sample_ok(e.power_kw as int)
}

/// Well-formed balancing sample: a valid timestamp and bounded fields.
pub open spec fn srl_entry_ok(e: SRLEntry) -> bool {
    &&& timestamp_ok(e.timestamp as int)
    &&& sample_ok(e.pos_energy_kwh as int)
    &&& sample_ok(e.neg_energy_kwh as int)
    &&& sample_ok(e.pos_price_eur_mwh as int)
    &&& sample_ok(e.neg_price_eur_mwh as int)
}

/// Well-formed merged tick: a valid timestamp and bounded fields.
pub open spec fn merged_tick_ok(t: MergedTick) -> bool {
    &&& timestamp_ok(t.timestamp as int)
    &&& sample_ok(t.power_kw as int)
    &&& sample_ok(t.srl_pos_kwh as int)
    &&& sample_ok(t.srl_neg_kwh as int)
    &&& sample_ok(t.srl_pos_price_eur_mwh as int)
    &&& sample_ok(t.srl_neg_price_eur_mwh as int)
}

/// Timestamps of a load series strictly increase.
pub open spec fn load_strictly_sorted(s: Seq<LoadEntry>) -> bool {
    forall|i: int, j: int|
        0 <= i < j < s.len() ==> #[trigger] s[i].timestamp < #[trigger] s[j].timestamp
}

/// Timestamps of a balancing series strictly increase.
pub open spec fn srl_strictly_sorted(s: Seq<SRLEntry>) -> bool {
    forall|i: int, j: int|
        0 <= i < j < s.len() ==> #[trigger] s[i].timestamp < #[trigger] s[j].timestamp
}

} // verus!
