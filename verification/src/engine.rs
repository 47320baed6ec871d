//! The battery dispatch engine: one pass over the merged tick sequence,
//! threading the state of charge, serving balancing-energy requests first
//! and peak shaving second.
//!
//! The balancing path applies the efficiency factor in both directions;
//! the peak-shaving path deliberately values energy at face value, an
//! intended asymmetry of the model. A tick serves at most one balancing
//! direction and at most one peak-shaving direction, and the reserve
//! headroom is subtracted on both paths.

use vstd::prelude::*;
use vstd::arithmetic::div_mod::lemma_div_pos_is_pos;
use vstd::arithmetic::div_mod::lemma_div_is_ordered;
use vstd::arithmetic::div_mod::lemma_div_nonincreasing;
use vstd::arithmetic::div_mod::lemma_div_multiples_vanish;
use vstd::arithmetic::div_mod::lemma_fundamental_div_mod;
use vstd::arithmetic::mul::lemma_mul_inequality;
use crate::arith::min_spec;
use crate::arith::max_spec;
use crate::arith::clamp_spec;
use crate::arith::abs_spec;
use crate::arith::mul_div_floor;
use crate::arith::min_i64;
use crate::arith::max_i64;
use crate::arith::clamp_i64;
use crate::arith::abs_i64;
use crate::model::MergedTick;
use crate::model::merged_tick_ok;
use crate::config::SimulationConfig;
use crate::config::config_ok;
use crate::config::soc_min_of;
use crate::config::soc_max_of;
use crate::config::soc_reserve_of;
use crate::config::p_max_of;
use crate::config::e_max_of;
use crate::config::initial_soc_of;
use crate::config::lemma_config_derived_bounds;
use crate::config::lemma_mul_div_le;
use crate::config::lemma_frac_le;
use crate::config::lemma_scale_round_trip;
use crate::config::PER_MILLE;
use crate::tick_result::SimulationTickResult;
use crate::tick_result::tick_result_ok;
use crate::SAMPLE_ABS_MAX;

verus! {

/// Micro scale: the product of the per-mille scale with itself, used when
/// a milli-scaled quantity meets a milli-scaled price.
pub const PER_MICRO: i64 = 1_000_000;

/// Milli-percent of the usable range when full: one hundred percent.
pub const FULL_PERCENT: i64 = 100_000;

/// Balancing energy delivered to the grid in a tick entered with state
/// `soc`: the request, capped by the reserve-aware headroom after the
/// efficiency loss and by the per-tick energy limit.
pub open spec fn srl_out_energy(c: SimulationConfig, soc: int, t: MergedTick) -> int {
    if t.srl_pos_kwh > 0 {
        min_spec(
            t.srl_pos_kwh as int,
            min_spec(
                max_spec(soc - soc_min_of(c) - soc_reserve_of(c), 0) * c.efficiency / (
                PER_MILLE as int),
                e_max_of(c),
            ),
        )
    } else {
        0
    }
}

/// Balancing energy absorbed from the grid in a tick entered with state
/// `soc`; zero whenever a positive request takes the tick.
pub open spec fn srl_in_energy(c: SimulationConfig, soc: int, t: MergedTick) -> int {
    if !(t.srl_pos_kwh > 0) && t.srl_neg_kwh < 0 {
        min_spec(
            -(t.srl_neg_kwh as int),
            min_spec(
                max_spec(soc_max_of(c) - soc - soc_reserve_of(c), 0) * (PER_MILLE as int) / (
                c.efficiency as int),
                e_max_of(c),
            ),
        )
    } else {
        0
    }
}

/// Raw energy drawn from the battery to deliver the balancing energy: the
/// delivered amount grown by the efficiency loss.
pub open spec fn srl_drawn(c: SimulationConfig, soc: int, t: MergedTick) -> int {
    srl_out_energy(c, soc, t) * (PER_MILLE as int) / (c.efficiency as int)
}

/// Energy actually stored when absorbing the balancing energy: the
/// absorbed amount shrunk by the efficiency loss.
pub open spec fn srl_stored(c: SimulationConfig, soc: int, t: MergedTick) -> int {
    srl_in_energy(c, soc, t) * c.efficiency / (PER_MILLE as int)
}

/// State of charge after the balancing step of a tick entered with `soc`.
pub open spec fn soc_after_srl(c: SimulationConfig, soc: int, t: MergedTick) -> int {
    soc - srl_drawn(c, soc, t) + srl_stored(c, soc, t)
}

/// Peak-shaving discharge energy, taken at face value without the
/// efficiency factor, from the post-balancing state `soc1`.
pub open spec fn ps_out_energy(c: SimulationConfig, soc1: int, t: MergedTick) -> int {
    if t.power_kw > 0 {
        min_spec(
            min_spec(t.power_kw as int, p_max_of(c)) * c.timestep_minutes / 60,
            max_spec(soc1 - soc_min_of(c) - soc_reserve_of(c), 0),
        )
    } else {
        0
    }
}

/// Peak-shaving charge energy from the post-balancing state `soc1`.
pub open spec fn ps_in_energy(c: SimulationConfig, soc1: int, t: MergedTick) -> int {
    if t.power_kw < 0 {
        min_spec(
            min_spec(-(t.power_kw as int), p_max_of(c)) * c.timestep_minutes / 60,
            max_spec(soc_max_of(c) - soc1 - soc_reserve_of(c), 0),
        )
    } else {
        0
    }
}

/// State of charge at the end of a tick entered with `soc`, defensively
/// clamped into the allowed band.
pub open spec fn soc_after_tick(c: SimulationConfig, soc: int, t: MergedTick) -> int {
    let soc1 = soc_after_srl(c, soc, t);
    clamp_spec(
        soc1 - ps_out_energy(c, soc1, t) + ps_in_energy(c, soc1, t),
        soc_min_of(c),
        soc_max_of(c),
    )
}

/// State of charge after the first `n` ticks of a run.
pub open spec fn soc_after_n(c: SimulationConfig, ticks: Seq<MergedTick>, n: int) -> int
    decreases n,
{
    if n <= 0 {
        initial_soc_of(c)
    } else {
        soc_after_tick(c, soc_after_n(c, ticks, n - 1), ticks[n - 1])
    }
}

/// Peak-shaving discharge power reported for the tick.
pub open spec fn battery_out_kw_spec(c: SimulationConfig, soc: int, t: MergedTick) -> int {
    ps_out_energy(c, soc_after_srl(c, soc, t), t) * 60 / (c.timestep_minutes as int)
}

/// Peak-shaving charge power reported for the tick.
pub open spec fn battery_in_kw_spec(c: SimulationConfig, soc: int, t: MergedTick) -> int {
    ps_in_energy(c, soc_after_srl(c, soc, t), t) * 60 / (c.timestep_minutes as int)
}

/// Revenue from the delivered balancing energy, milli-currency.
pub open spec fn revenue_pos_spec(c: SimulationConfig, soc: int, t: MergedTick) -> int {
    srl_out_energy(c, soc, t) * t.srl_pos_price_eur_mwh / (PER_MICRO as int)
}

/// Revenue from the absorbed balancing energy, milli-currency: positive
/// when the negative-direction price is negative.
pub open spec fn revenue_neg_spec(c: SimulationConfig, soc: int, t: MergedTick) -> int {
    srl_in_energy(c, soc, t) * -(t.srl_neg_price_eur_mwh as int) / (PER_MICRO as int)
}

/// Net grid power after both battery actions.
pub open spec fn grid_net_spec(c: SimulationConfig, soc: int, t: MergedTick) -> int {
    t.power_kw + battery_in_kw_spec(c, soc, t) - battery_out_kw_spec(c, soc, t)
}

/// State of charge as milli-percent of the usable band; zero when the
/// band is empty.
pub open spec fn soc_percent_spec(c: SimulationConfig, soc_end: int) -> int {
    if soc_max_of(c) == soc_min_of(c) {
        0
    } else {
        (soc_end - soc_min_of(c)) * (FULL_PERCENT as int) / (soc_max_of(c) - soc_min_of(c))
    }
}

/// Every field of the result record of one tick entered with state `soc`.
pub open spec fn tick_result_matches(
    c: SimulationConfig,
    soc: int,
    t: MergedTick,
    r: SimulationTickResult,
) -> bool {
    &&& r.timestamp == t.timestamp
    &&& r.original_power_kw == t.power_kw
    &&& r.srl_pos_kwh == t.srl_pos_kwh
    &&& r.srl_neg_kwh == t.srl_neg_kwh
    &&& r.srl_energy_out_kwh == srl_out_energy(c, soc, t)
    &&& r.srl_energy_in_kwh == srl_in_energy(c, soc, t)
    &&& r.battery_out_kw == battery_out_kw_spec(c, soc, t)
    &&& r.battery_in_kw == battery_in_kw_spec(c, soc, t)
    &&& r.soc_kwh == soc_after_tick(c, soc, t)
    &&& r.soc_percent == soc_percent_spec(c, soc_after_tick(c, soc, t))
    &&& r.grid_net_kw == grid_net_spec(c, soc, t)
    &&& r.original_grid_kw == t.power_kw
    &&& r.final_grid_kw == grid_net_spec(c, soc, t)
    &&& r.transformer_violation == (abs_spec(grid_net_spec(c, soc, t)) > c.transformer_limit_kw)
    &&& r.srl_revenue_pos_chf == revenue_pos_spec(c, soc, t)
    &&& r.srl_revenue_neg_chf == revenue_neg_spec(c, soc, t)
}

/// Bounds of every quantity one tick computes, from a state within the
/// battery, and the fact that the defensive clamp does nothing once the
/// state has reached the allowed band.
pub proof fn lemma_tick_bounds(c: SimulationConfig, soc: int, t: MergedTick)
    requires
        config_ok(c),
        merged_tick_ok(t),
        0 <= soc <= soc_max_of(c),
    ensures
        0 <= srl_out_energy(c, soc, t) <= max_spec(t.srl_pos_kwh as int, 0),
        srl_out_energy(c, soc, t) <= SAMPLE_ABS_MAX,
        0 <= srl_in_energy(c, soc, t) <= max_spec(-(t.srl_neg_kwh as int), 0),
        srl_in_energy(c, soc, t) <= SAMPLE_ABS_MAX,
        0 <= srl_drawn(c, soc, t) <= soc,
        0 <= srl_stored(c, soc, t) <= soc_max_of(c) - soc,
        0 <= soc_after_srl(c, soc, t) <= soc_max_of(c),
        0 <= ps_out_energy(c, soc_after_srl(c, soc, t), t) <= soc_after_srl(c, soc, t),
        0 <= ps_in_energy(c, soc_after_srl(c, soc, t), t) <= soc_max_of(c) - soc_after_srl(
            c,
            soc,
            t,
        ),
        0 <= battery_out_kw_spec(c, soc, t) <= SAMPLE_ABS_MAX,
        0 <= battery_in_kw_spec(c, soc, t) <= SAMPLE_ABS_MAX,
        soc_min_of(c) <= soc_after_tick(c, soc, t) <= soc_max_of(c),
        soc >= soc_min_of(c) ==> soc_after_srl(c, soc, t) >= soc_min_of(c),
        soc >= soc_min_of(c) ==> soc_after_tick(c, soc, t) == soc_after_srl(c, soc, t)
            - ps_out_energy(c, soc_after_srl(c, soc, t), t) + ps_in_energy(
            c,
            soc_after_srl(c, soc, t),
            t,
        ),
        -10_000_000_000_000_001 <= revenue_pos_spec(c, soc, t) <= 10_000_000_000_000_000,
        -10_000_000_000_000_001 <= revenue_neg_spec(c, soc, t) <= 10_000_000_000_000_000,
        0 <= soc_percent_spec(c, soc_after_tick(c, soc, t)) <= FULL_PERCENT,
        -2 * SAMPLE_ABS_MAX <= grid_net_spec(c, soc, t) <= 2 * SAMPLE_ABS_MAX,
{
    lemma_config_derived_bounds(c);
    let smin = soc_min_of(c);
    let smax = soc_max_of(c);
    let res = soc_reserve_of(c);
    let eff = c.efficiency as int;
    let ts = c.timestep_minutes as int;

    // Balancing step.
    let avail = max_spec(soc - smin - res, 0);
    assert(0 <= avail <= soc);
    lemma_frac_le(avail, eff, PER_MILLE as int, avail);
    let deliverable = avail * eff / (PER_MILLE as int);
    let room = max_spec(smax - soc - res, 0);
    assert(0 <= room <= smax - soc);
    lemma_mul_div_le(room, PER_MILLE as int, eff, room, PER_MILLE as int);
    lemma_div_nonincreasing(room * (PER_MILLE as int), eff);
    assert(room * (PER_MILLE as int) >= 0) by (nonlinear_arith)
        requires
            room >= 0,
    ;
    let acceptable = room * (PER_MILLE as int) / eff;

    if t.srl_pos_kwh > 0 {
        let out = srl_out_energy(c, soc, t);
        assert(0 <= out <= t.srl_pos_kwh);
        assert(out <= deliverable);
        // out * 1000 / eff <= deliverable * 1000 / eff <= avail
        lemma_mul_inequality(out, deliverable, PER_MILLE as int);
        lemma_div_is_ordered(out * (PER_MILLE as int), deliverable * (PER_MILLE as int), eff);
        lemma_scale_round_trip(avail, eff, PER_MILLE as int);
        assert(out * (PER_MILLE as int) >= 0) by (nonlinear_arith)
            requires
                out >= 0,
        ;
        lemma_div_pos_is_pos(out * (PER_MILLE as int), eff);
        assert(0 <= srl_drawn(c, soc, t) <= avail);
        assert(srl_stored(c, soc, t) == 0);
    } else if t.srl_neg_kwh < 0 {
        let inn = srl_in_energy(c, soc, t);
        assert(0 <= inn <= -(t.srl_neg_kwh as int));
        assert(inn <= acceptable);
        lemma_mul_inequality(inn, acceptable, eff);
        lemma_div_is_ordered(inn * eff, acceptable * eff, PER_MILLE as int);
        lemma_scale_round_trip(room, PER_MILLE as int, eff);
        assert(inn * eff >= 0) by (nonlinear_arith)
            requires
                inn >= 0,
                eff >= 1,
            ;
        lemma_div_pos_is_pos(inn * eff, PER_MILLE as int);
        assert(0 <= srl_stored(c, soc, t) <= room);
        assert(srl_drawn(c, soc, t) == 0);
    } else {
        assert(srl_drawn(c, soc, t) == 0);
        assert(srl_stored(c, soc, t) == 0);
    }
    let soc1 = soc_after_srl(c, soc, t);
    assert(0 <= soc1 <= smax);
    assert(soc >= smin ==> soc1 >= smin);

    // Peak-shaving step.
    let pmax = p_max_of(c);
    if t.power_kw > 0 {
        let want = min_spec(t.power_kw as int, pmax);
        assert(0 <= want <= SAMPLE_ABS_MAX);
        lemma_mul_div_le(want, ts, 60, want, crate::interpolation::STEP_MINUTES_MAX as int);
        let desired = want * ts / 60;
        lemma_mul_div_le(want, ts, 60, SAMPLE_ABS_MAX as int, crate::interpolation::STEP_MINUTES_MAX as int);
        let f = ps_out_energy(c, soc1, t);
        assert(0 <= f <= max_spec(soc1 - smin - res, 0));
        assert(f <= soc1);
        assert(f <= desired);
        lemma_mul_inequality(f, desired, 60);
        lemma_div_is_ordered(f * 60, desired * 60, ts);
        lemma_scale_round_trip(want, ts, 60);
        assert(f * 60 >= 0) by (nonlinear_arith)
            requires
                f >= 0,
        ;
        lemma_div_pos_is_pos(f * 60, ts);
        assert(0 <= battery_out_kw_spec(c, soc, t) <= want);
        assert(battery_in_kw_spec(c, soc, t) == 0) by {
            assert(ps_in_energy(c, soc1, t) == 0);
        }
    } else if t.power_kw < 0 {
        let want = min_spec(-(t.power_kw as int), pmax);
        assert(0 <= want <= SAMPLE_ABS_MAX);
        lemma_mul_div_le(want, ts, 60, want, crate::interpolation::STEP_MINUTES_MAX as int);
        let desired = want * ts / 60;
        let f = ps_in_energy(c, soc1, t);
        assert(0 <= f <= max_spec(smax - soc1 - res, 0));
        assert(f <= smax - soc1);
        assert(f <= desired);
        lemma_mul_inequality(f, desired, 60);
        lemma_div_is_ordered(f * 60, desired * 60, ts);
        lemma_scale_round_trip(want, ts, 60);
        assert(f * 60 >= 0) by (nonlinear_arith)
            requires
                f >= 0,
        ;
        lemma_div_pos_is_pos(f * 60, ts);
        assert(0 <= battery_in_kw_spec(c, soc, t) <= want);
        assert(battery_out_kw_spec(c, soc, t) == 0) by {
            assert(ps_out_energy(c, soc1, t) == 0);
        }
    } else {
        assert(ps_out_energy(c, soc1, t) == 0);
        assert(ps_in_energy(c, soc1, t) == 0);
    }
    let fo = ps_out_energy(c, soc1, t);
    let fi = ps_in_energy(c, soc1, t);
    let soc2 = soc1 - fo + fi;
    assert(0 <= soc2 <= smax);
    assert(soc >= smin ==> soc2 >= smin) by {
        if soc >= smin && fo > 0 {
            assert(soc1 - fo >= smin + res);
        }
    }

    // Revenues.
    lemma_mul_div_signed_bound(
        srl_out_energy(c, soc, t),
        t.srl_pos_price_eur_mwh as int,
        PER_MICRO as int,
        SAMPLE_ABS_MAX as int,
        SAMPLE_ABS_MAX as int,
    );
    lemma_mul_div_signed_bound(
        srl_in_energy(c, soc, t),
        -(t.srl_neg_price_eur_mwh as int),
        PER_MICRO as int,
        SAMPLE_ABS_MAX as int,
        SAMPLE_ABS_MAX as int,
    );

    // Percent of the usable band.
    let soc_end = soc_after_tick(c, soc, t);
    assert(smin <= soc_end <= smax);
    if smax != smin {
        let band = smax - smin;
        let x = soc_end - smin;
        assert(0 <= x <= band);
        lemma_mul_inequality(x, band, FULL_PERCENT as int);
        lemma_div_is_ordered(x * (FULL_PERCENT as int), band * (FULL_PERCENT as int), band);
        assert(band * (FULL_PERCENT as int) == band * (FULL_PERCENT as int)) by (nonlinear_arith);
        lemma_div_multiples_vanish(FULL_PERCENT as int, band);
        assert(band * (FULL_PERCENT as int) / band == FULL_PERCENT as int);
        assert(x * (FULL_PERCENT as int) >= 0) by (nonlinear_arith)
            requires
                x >= 0,
        ;
        lemma_div_pos_is_pos(x * (FULL_PERCENT as int), band);
    }
}

/// A product of a bounded non-negative factor and a bounded signed factor,
/// divided by a positive divisor with rounding toward negative infinity,
/// stays within the product of the bounds.
pub proof fn lemma_mul_div_signed_bound(a: int, b: int, d: int, ba: int, bb: int)
    requires
        -ba <= a <= ba,
        -bb <= b <= bb,
        0 <= ba,
        0 <= bb,
        0 < d,
    ensures
        -(ba * bb / d) - 1 <= a * b / d <= ba * bb / d,
{
    assert(-(ba * bb) <= a * b <= ba * bb) by (nonlinear_arith)
        requires
            -ba <= a <= ba,
            -bb <= b <= bb,
            0 <= ba,
            0 <= bb,
    ;
    let m = ba * bb;
    assert(m >= 0) by (nonlinear_arith)
        requires
            m == ba * bb,
            0 <= ba,
            0 <= bb,
    ;
    lemma_div_is_ordered(a * b, m, d);
    lemma_div_is_ordered(-m, a * b, d);
    lemma_fundamental_div_mod(m, d);
    vstd::arithmetic::div_mod::lemma_mod_division_less_than_divisor(m, d);
    lemma_fundamental_div_mod(-m, d);
    vstd::arithmetic::div_mod::lemma_mod_division_less_than_divisor(-m, d);
    let q = m / d;
    let r = m % d;
    let q2 = (-m) / d;
    let r2 = (-m) % d;
    assert(q2 >= -q - 1) by (nonlinear_arith)
        requires
            m == d * q + r,
            0 <= r < d,
            -m == d * q2 + r2,
            0 <= r2 < d,
            d >= 1,
    ;
}

/// Runs the dispatch over the merged tick sequence in chronological order,
/// threading the state of charge, and returns one result record per tick.
/// After every tick the state of charge lies in the allowed band, and the
/// balancing fulfilment never exceeds the request in either direction.
#[verifier::loop_isolation(false)]
pub fn run_simulation(ticks: &Vec<MergedTick>, config: &SimulationConfig) -> (results: Vec<
    SimulationTickResult,
>)
    requires
        config_ok(*config),
        forall|i: int| 0 <= i < ticks@.len() ==> merged_tick_ok(#[trigger] ticks@[i]),
    ensures
        results@.len() == ticks@.len(),
        forall|i: int|
            0 <= i < results@.len() ==> tick_result_matches(
                *config,
                soc_after_n(*config, ticks@, i),
                ticks@[i],
                #[trigger] results@[i],
            ),
        forall|i: int| 0 <= i < results@.len() ==> tick_result_ok(#[trigger] results@[i]),
        forall|i: int|
            0 <= i < results@.len() ==> soc_min_of(*config) <= (#[trigger] results@[i]).soc_kwh
                <= soc_max_of(*config),
        forall|i: int|
            0 <= i < results@.len() ==> 0 <= (#[trigger] results@[i]).srl_energy_out_kwh
                <= max_spec(ticks@[i].srl_pos_kwh as int, 0),
        forall|i: int|
            0 <= i < results@.len() ==> 0 <= (#[trigger] results@[i]).srl_energy_in_kwh
                <= max_spec(-(ticks@[i].srl_neg_kwh as int), 0),
{
    let cfg = *config;
    proof {
        lemma_config_derived_bounds(cfg);
    }
    let soc_min = mul_div_floor(cfg.capacity_kwh, cfg.min_soc_frac, PER_MILLE);
    let soc_max = cfg.capacity_kwh;
    let soc_reserve = mul_div_floor(soc_max - soc_min, cfg.reserve_fraction, PER_MILLE);
    let p_max = mul_div_floor(cfg.capacity_kwh, cfg.c_rate, PER_MILLE);
    let e_max = mul_div_floor(p_max, cfg.timestep_minutes, 60);
    let mut soc = mul_div_floor(cfg.capacity_kwh, cfg.initial_soc_frac, PER_MILLE);

    let mut results: Vec<SimulationTickResult> = Vec::new();
    let mut i: usize = 0;
    while i < ticks.len()
        invariant
            i <= ticks@.len(),
            results@.len() == i as int,
            soc as int == soc_after_n(cfg, ticks@, i as int),
            0 <= soc as int <= soc_max_of(cfg),
            forall|k: int|
                0 <= k < i ==> tick_result_matches(
                    cfg,
                    soc_after_n(cfg, ticks@, k),
                    ticks@[k],
                    #[trigger] results@[k],
                ),
            forall|k: int| 0 <= k < i ==> tick_result_ok(#[trigger] results@[k]),
            forall|k: int|
                0 <= k < i ==> soc_min_of(cfg) <= (#[trigger] results@[k]).soc_kwh <= soc_max_of(
                    cfg,
                ),
            forall|k: int|
                0 <= k < i ==> 0 <= (#[trigger] results@[k]).srl_energy_out_kwh <= max_spec(
                    ticks@[k].srl_pos_kwh as int,
                    0,
                ),
            forall|k: int|
                0 <= k < i ==> 0 <= (#[trigger] results@[k]).srl_energy_in_kwh <= max_spec(
                    -(ticks@[k].srl_neg_kwh as int),
                    0,
                ),
        decreases ticks@.len() - i,
    {
        let tick = ticks[i];
        let ghost soc0: int = soc as int;
        proof {
            lemma_tick_bounds(cfg, soc0, tick);
        }

        // Balancing dispatch: one direction at most per tick.
        let mut srl_out: i64 = 0;
        let mut srl_in: i64 = 0;
        if tick.srl_pos_kwh > 0 {
            let avail = max_i64(soc - soc_min - soc_reserve, 0);
            proof {
                lemma_frac_le(avail as int, cfg.efficiency as int, PER_MILLE as int, avail as int);
            }
            let deliverable = mul_div_floor(avail, cfg.efficiency, PER_MILLE);
            let possible = min_i64(deliverable, e_max);
            srl_out = min_i64(tick.srl_pos_kwh, possible);
            let drawn = mul_div_floor(srl_out, PER_MILLE, cfg.efficiency);
            soc = soc - drawn;
        } else if tick.srl_neg_kwh < 0 {
            let room = max_i64(soc_max - soc - soc_reserve, 0);
            proof {
                assert((room as int) * (PER_MILLE as int) >= 0) by (nonlinear_arith)
                    requires
                        room as int >= 0,
                ;
                lemma_mul_inequality(room as int, soc_max_of(cfg), PER_MILLE as int);
                lemma_div_nonincreasing((room as int) * (PER_MILLE as int), cfg.efficiency as int);
            }
            let acceptable = mul_div_floor(room, PER_MILLE, cfg.efficiency);
            let possible = min_i64(acceptable, e_max);
            srl_in = min_i64(-tick.srl_neg_kwh, possible);
            let stored = mul_div_floor(srl_in, cfg.efficiency, PER_MILLE);
            soc = soc + stored;
        }
        assert(srl_out as int == srl_out_energy(cfg, soc0, tick));
        assert(srl_in as int == srl_in_energy(cfg, soc0, tick));
        assert(soc as int == soc_after_srl(cfg, soc0, tick));

        // Balancing revenue, in milli-currency.
        let revenue_pos = mul_div_floor(srl_out, tick.srl_pos_price_eur_mwh, PER_MICRO);
        let revenue_neg = mul_div_floor(srl_in, -tick.srl_neg_price_eur_mwh, PER_MICRO);

        // Peak shaving against the post-balancing state, without the
        // efficiency factor.
        let mut battery_in_kw: i64 = 0;
        let mut battery_out_kw: i64 = 0;
        if tick.power_kw > 0 {
            let want = min_i64(tick.power_kw, p_max);
            proof {
                lemma_mul_div_le(
                    want as int,
                    cfg.timestep_minutes as int,
                    60,
                    SAMPLE_ABS_MAX as int,
                    crate::interpolation::STEP_MINUTES_MAX as int,
                );
            }
            let desired = mul_div_floor(want, cfg.timestep_minutes, 60);
            let cap_d = max_i64(soc - soc_min - soc_reserve, 0);
            let fulfilled = min_i64(desired, cap_d);
            assert(fulfilled as int == ps_out_energy(cfg, soc_after_srl(cfg, soc0, tick), tick));
            battery_out_kw = mul_div_floor(fulfilled, 60, cfg.timestep_minutes);
            soc = soc - fulfilled;
        } else if tick.power_kw < 0 {
            let want = min_i64(-tick.power_kw, p_max);
            proof {
                lemma_mul_div_le(
                    want as int,
                    cfg.timestep_minutes as int,
                    60,
                    SAMPLE_ABS_MAX as int,
                    crate::interpolation::STEP_MINUTES_MAX as int,
                );
            }
            let desired = mul_div_floor(want, cfg.timestep_minutes, 60);
            let cap_c = max_i64(soc_max - soc - soc_reserve, 0);
            let fulfilled = min_i64(desired, cap_c);
            assert(fulfilled as int == ps_in_energy(cfg, soc_after_srl(cfg, soc0, tick), tick));
            battery_in_kw = mul_div_floor(fulfilled, 60, cfg.timestep_minutes);
            soc = soc + fulfilled;
        }
        assert(battery_out_kw as int == battery_out_kw_spec(cfg, soc0, tick));
        assert(battery_in_kw as int == battery_in_kw_spec(cfg, soc0, tick));

        // Defensive clamp of the state of charge.
        soc = clamp_i64(soc, soc_min, soc_max);
        assert(soc as int == soc_after_tick(cfg, soc0, tick));

        let soc_percent: i64 = if soc_max == soc_min {
            0
        } else {
            mul_div_floor(soc - soc_min, FULL_PERCENT, soc_max - soc_min)
        };
        let grid_net = tick.power_kw + battery_in_kw - battery_out_kw;
        let violation = abs_i64(grid_net) > cfg.transformer_limit_kw;

        let result = SimulationTickResult {
            timestamp: tick.timestamp,
            original_power_kw: tick.power_kw,
            srl_pos_kwh: tick.srl_pos_kwh,
            srl_neg_kwh: tick.srl_neg_kwh,
            battery_in_kw,
            battery_out_kw,
            srl_energy_in_kwh: srl_in,
            srl_energy_out_kwh: srl_out,
            soc_kwh: soc,
            soc_percent,
            grid_net_kw: grid_net,
            transformer_violation: violation,
            srl_revenue_pos_chf: revenue_pos,
            srl_revenue_neg_chf: revenue_neg,
            original_grid_kw: tick.power_kw,
            final_grid_kw: grid_net,
        };
        proof {
            assert(tick_result_matches(cfg, soc0, tick, result));
            assert(tick_result_ok(result));
            assert(soc_after_n(cfg, ticks@, i + 1) == soc_after_tick(cfg, soc0, tick));
        }
        results.push(result);
        i = i + 1;
    }
    results
}

/// Net change the battery's stored energy undergoes over the first `n`
/// ticks: balancing charge minus balancing discharge, measured at the
/// battery terminals, plus peak-shaving charge minus peak-shaving
/// discharge.
pub open spec fn soc_delta_sum(c: SimulationConfig, ticks: Seq<MergedTick>, n: int) -> int
    decreases n,
{
    if n <= 0 {
        0
    } else {
        let soc = soc_after_n(c, ticks, n - 1);
        let t = ticks[n - 1];
        soc_delta_sum(c, ticks, n - 1) + srl_stored(c, soc, t) - srl_drawn(c, soc, t)
            + ps_in_energy(c, soc_after_srl(c, soc, t), t) - ps_out_energy(
            c,
            soc_after_srl(c, soc, t),
            t,
        )
    }
}

/// Conservation of stored energy: on a run that starts inside the allowed
/// band, the state of charge after `n` ticks is exactly the initial state
/// plus the summed per-tick charge and discharge energies, with the
/// defensive clamp never interfering; and it stays inside the band.
/// A run that starts below the band is lifted into it by the clamp of the
/// first tick, which creates energy, so such starts are excluded.
pub proof fn lemma_dispatch_conservation(c: SimulationConfig, ticks: Seq<MergedTick>, n: int)
    requires
        config_ok(c),
        forall|i: int| 0 <= i < n ==> merged_tick_ok(#[trigger] ticks[i]),
        0 <= n <= ticks.len(),
        soc_min_of(c) <= initial_soc_of(c),
    ensures
        soc_after_n(c, ticks, n) == initial_soc_of(c) + soc_delta_sum(c, ticks, n),
        soc_min_of(c) <= soc_after_n(c, ticks, n) <= soc_max_of(c),
    decreases n,
{
    lemma_config_derived_bounds(c);
    if n > 0 {
        lemma_dispatch_conservation(c, ticks, n - 1);
        let soc = soc_after_n(c, ticks, n - 1);
        lemma_tick_bounds(c, soc, ticks[n - 1]);
    }
}

/// With the whole usable range reserved for balancing duty, peak shaving
/// can neither charge nor discharge, whatever the tick carries.
pub proof fn lemma_full_reserve_blocks_peak_shaving(c: SimulationConfig, soc: int, t: MergedTick)
    requires
        config_ok(c),
        merged_tick_ok(t),
        c.reserve_fraction == PER_MILLE,
        soc_min_of(c) <= soc <= soc_max_of(c),
    ensures
        ps_out_energy(c, soc_after_srl(c, soc, t), t) == 0,
        ps_in_energy(c, soc_after_srl(c, soc, t), t) == 0,
        battery_out_kw_spec(c, soc, t) == 0,
        battery_in_kw_spec(c, soc, t) == 0,
{
    lemma_config_derived_bounds(c);
    lemma_tick_bounds(c, soc, t);
    let band = soc_max_of(c) - soc_min_of(c);
    assert(band * (PER_MILLE as int) == (PER_MILLE as int) * band) by (nonlinear_arith);
    lemma_div_multiples_vanish(band, PER_MILLE as int);
    assert(soc_reserve_of(c) == band);
    let soc1 = soc_after_srl(c, soc, t);
    assert(max_spec(soc1 - soc_min_of(c) - soc_reserve_of(c), 0) == 0);
    assert(max_spec(soc_max_of(c) - soc1 - soc_reserve_of(c), 0) == 0);
    if t.power_kw > 0 {
        let want = min_spec(t.power_kw as int, p_max_of(c));
        assert(want * c.timestep_minutes >= 0) by (nonlinear_arith)
            requires
                want >= 0,
                c.timestep_minutes >= 1,
        ;
        lemma_div_pos_is_pos(want * c.timestep_minutes, 60);
        assert(ps_out_energy(c, soc1, t) == 0);
    }
    if t.power_kw < 0 {
        let want = min_spec(-(t.power_kw as int), p_max_of(c));
        assert(want * c.timestep_minutes >= 0) by (nonlinear_arith)
            requires
                want >= 0,
                c.timestep_minutes >= 1,
        ;
        lemma_div_pos_is_pos(want * c.timestep_minutes, 60);
        assert(ps_in_energy(c, soc1, t) == 0);
    }
}

} // verus!
