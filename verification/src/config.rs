//! The static configuration of a simulation run, the bounds the core
//! demands of it, and the derived per-run constants of the dispatch engine.

use vstd::prelude::*;
use vstd::arithmetic::div_mod::lemma_div_is_ordered;
use vstd::arithmetic::div_mod::lemma_div_pos_is_pos;
use vstd::arithmetic::div_mod::lemma_div_multiples_vanish;
use crate::interpolation::STEP_MINUTES_MAX;

verus! {

/// Scale of all fractional configuration fields: 1000 stands for 1.0.
pub const PER_MILLE: i64 = 1000;

/// Largest accepted battery capacity, in milli-kWh.
pub const CAPACITY_ABS_MAX: i64 = 1_000_000_000_000;

/// Largest accepted C-rate, in per-mille: a hundredfold of the capacity.
pub const C_RATE_MAX: i64 = 100_000;

/// Largest accepted battery price, in milli-currency per kWh.
pub const PRICE_PER_KWH_MAX: i64 = 1_000_000_000;

/// Largest accepted operating cost rate, in per-mille of the investment.
pub const OPERATING_RATE_MAX: i64 = 1_000_000;

/// Immutable configuration of one simulation run. Fractions are in
/// per-mille, energies in milli-kWh, powers in milli-kW, prices in
/// milli-currency.
#[derive(Clone, Copy, Debug, PartialEq, Eq, Structural)]
pub struct SimulationConfig {
    /// Battery capacity, milli-kWh.
    pub capacity_kwh: i64,
    /// Maximum charge and discharge power as a per-mille multiple of the
    /// capacity per hour.
    pub c_rate: i64,
    /// One-way efficiency factor, per-mille; applied on the balancing
    /// path only.
    pub efficiency: i64,
    /// Lowest allowed state of charge, per-mille of capacity.
    pub min_soc_frac: i64,
    /// State of charge at the start of the run, per-mille of capacity.
    pub initial_soc_frac: i64,
    /// Share of the usable range walled off from peak shaving, per-mille.
    pub reserve_fraction: i64,
    /// Net grid power above which a tick is flagged, milli-kW.
    pub transformer_limit_kw: i64,
    /// Length of one tick, whole minutes.
    pub timestep_minutes: i64,
    /// Battery price, milli-currency per kWh of capacity.
    pub battery_price_per_kwh_chf: i64,
    /// Yearly operating cost, per-mille of the investment.
    pub operating_cost_rate: i64,
}

/// The bounds under which every derived constant and every per-tick
/// computation of the engine stays within `i64`.
pub open spec fn config_ok(c: SimulationConfig) -> bool {
    &&& 0 <= c.capacity_kwh <= CAPACITY_ABS_MAX
    &&& 0 <= c.c_rate <= C_RATE_MAX
    &&& 1 <= c.efficiency <= PER_MILLE
    &&& 0 <= c.min_soc_frac <= PER_MILLE
    &&& 0 <= c.initial_soc_frac <= PER_MILLE
    &&& 0 <= c.reserve_fraction <= PER_MILLE
    &&& 1 <= c.timestep_minutes <= STEP_MINUTES_MAX
    &&& 0 <= c.battery_price_per_kwh_chf <= PRICE_PER_KWH_MAX
    &&& 0 <= c.operating_cost_rate <= OPERATING_RATE_MAX
}

impl Default for SimulationConfig {
    /// A one-MWh battery at one C, 95 % efficiency, 10 % floor, half-full
    /// start, half the usable range reserved for balancing duty.
    fn default() -> (c: Self)
        ensures
            c == (SimulationConfig {
                capacity_kwh: 1_000_000,
                c_rate: 1000,
                efficiency: 950,
                min_soc_frac: 100,
                initial_soc_frac: 500,
                reserve_fraction: 500,
                transformer_limit_kw: 240_000,
                timestep_minutes: 1,
                battery_price_per_kwh_chf: 400_000,
                operating_cost_rate: 10,
            }),
            config_ok(c),
    {
        SimulationConfig {
            capacity_kwh: 1_000_000,
            c_rate: 1000,
            efficiency: 950,
            min_soc_frac: 100,
            initial_soc_frac: 500,
            reserve_fraction: 500,
            transformer_limit_kw: 240_000,
            timestep_minutes: 1,
            battery_price_per_kwh_chf: 400_000,
            operating_cost_rate: 10,
        }
    }
}

/// The aggregate report of one run, built once from the full tick-result
/// sequence. Running sums are held in `i128` so that runs of any length
/// the machine can hold stay exact; scalar extremes stay in `i64`.
#[derive(Clone, Debug, PartialEq, Eq)]
pub struct SimulationSummary {
    /// Number of ticks summarized.
    pub total_ticks: usize,
    /// Summed balancing energy delivered, milli-kWh.
    pub total_srl_out_kwh: i128,
    /// Summed balancing energy absorbed, milli-kWh.
    pub total_srl_in_kwh: i128,
    /// Summed peak-shaving discharge energy, milli-kWh.
    pub total_ps_out_kwh: i128,
    /// Summed peak-shaving charge energy, milli-kWh.
    pub total_ps_in_kwh: i128,
    /// Lowest state of charge seen, milli-kWh; `i64::MAX` on an empty run.
    pub min_soc_kwh: i64,
    /// Highest state of charge seen, milli-kWh; `i64::MIN` on an empty run.
    pub max_soc_kwh: i64,
    /// Number of ticks whose net grid power passed the transformer limit.
    pub transformer_violations: usize,
    /// Summed balancing revenue of both directions, milli-currency.
    pub total_srl_revenue_chf: i128,
    /// Summed monthly peak-shaving savings, milli-currency.
    pub peak_shaving_savings_chf: i128,
    /// Payback time in milli-years; absent when the run earned nothing.
    pub amortization_years: Option<i128>,
    /// Full charge-discharge cycles over the observed usable range, in
    /// milli-cycles.
    pub battery_cycles: i128,
}

/// Lowest allowed state of charge, milli-kWh.
pub open spec fn soc_min_of(c: SimulationConfig) -> int {
    c.capacity_kwh * c.min_soc_frac / (PER_MILLE as int)
}

/// Highest state of charge: the full capacity, milli-kWh.
pub open spec fn soc_max_of(c: SimulationConfig) -> int {
    c.capacity_kwh as int
}

/// Part of the usable range reserved for balancing duty, milli-kWh.
pub open spec fn soc_reserve_of(c: SimulationConfig) -> int {
    (soc_max_of(c) - soc_min_of(c)) * c.reserve_fraction / (PER_MILLE as int)
}

/// Maximum charge and discharge power, milli-kW.
pub open spec fn p_max_of(c: SimulationConfig) -> int {
    c.capacity_kwh * c.c_rate / (PER_MILLE as int)
}

/// Maximum energy transferable in one tick, milli-kWh.
pub open spec fn e_max_of(c: SimulationConfig) -> int {
    p_max_of(c) * c.timestep_minutes / 60
}

/// State of charge at the start of the run, milli-kWh.
pub open spec fn initial_soc_of(c: SimulationConfig) -> int {
    c.capacity_kwh * c.initial_soc_frac / (PER_MILLE as int)
}

/// A product of bounded non-negative factors, divided by a positive
/// divisor, keeps the bound built from the factor bounds.
pub proof fn lemma_mul_div_le(x: int, f: int, d: int, bx: int, bf: int)
    requires
        0 <= x <= bx,
        0 <= f <= bf,
        0 < d,
    ensures
        0 <= x * f / d <= bx * bf / d,
{
    assert(0 <= x * f <= bx * bf) by (nonlinear_arith)
        requires
            0 <= x <= bx,
            0 <= f <= bf,
    ;
    lemma_div_pos_is_pos(x * f, d);
    lemma_div_is_ordered(x * f, bx * bf, d);
}

/// Scaling a bounded non-negative value by a fraction of at most one
/// cannot pass the bound.
pub proof fn lemma_frac_le(x: int, f: int, d: int, b: int)
    requires
        0 <= x <= b,
        0 <= f <= d,
        0 < d,
    ensures
        0 <= x * f / d <= b,
{
    assert(0 <= x * f <= b * d && b * d == d * b) by (nonlinear_arith)
        requires
            0 <= x <= b,
            0 <= f <= d,
            0 < d,
    ;
    lemma_div_pos_is_pos(x * f, d);
    lemma_div_is_ordered(x * f, d * b, d);
    lemma_div_multiples_vanish(b, d);
}

/// Scaling down by `x / y` and back up by `y / x`, each time rounding
/// toward negative infinity, never exceeds the starting value.
pub proof fn lemma_scale_round_trip(a: int, x: int, y: int)
    requires
        a >= 0,
        x > 0,
        y > 0,
    ensures
        0 <= (a * x / y) * y / x <= a,
{
    let q = a * x / y;
    assert(a * x >= 0) by (nonlinear_arith)
        requires
            a >= 0,
            x > 0,
    ;
    lemma_div_pos_is_pos(a * x, y);
    assert(y * q <= a * x) by {
        vstd::arithmetic::div_mod::lemma_fundamental_div_mod(a * x, y);
    }
    assert(q * y == y * q) by (nonlinear_arith);
    lemma_div_pos_is_pos(q * y, x);
    lemma_div_is_ordered(q * y, a * x, x);
    assert(a * x == x * a) by (nonlinear_arith);
    lemma_div_multiples_vanish(a, x);
}

/// The per-run constants derived from a well-formed configuration all lie
/// in ranges that keep the engine's arithmetic inside `i64`.
pub proof fn lemma_config_derived_bounds(c: SimulationConfig)
    requires
        config_ok(c),
    ensures
        0 <= soc_min_of(c) <= soc_max_of(c),
        0 <= soc_reserve_of(c) <= soc_max_of(c) - soc_min_of(c),
        0 <= initial_soc_of(c) <= soc_max_of(c),
        0 <= p_max_of(c) <= 100_000_000_000_000,
        0 <= e_max_of(c) <= 1_666_666_666_666_666_666,
{
    lemma_frac_le(c.capacity_kwh as int, c.min_soc_frac as int, PER_MILLE as int, c.capacity_kwh as int);
    lemma_frac_le(
        soc_max_of(c) - soc_min_of(c),
        c.reserve_fraction as int,
        PER_MILLE as int,
        soc_max_of(c) - soc_min_of(c),
    );
    lemma_frac_le(c.capacity_kwh as int, c.initial_soc_frac as int, PER_MILLE as int, c.capacity_kwh as int);
    lemma_mul_div_le(
        c.capacity_kwh as int,
        c.c_rate as int,
        PER_MILLE as int,
        CAPACITY_ABS_MAX as int,
        C_RATE_MAX as int,
    );
    lemma_mul_div_le(
        p_max_of(c),
        c.timestep_minutes as int,
        60,
        100_000_000_000_000,
        STEP_MINUTES_MAX as int,
    );
}

} // verus!
