//! The summarizer: one pass over the tick results accumulating energy
//! totals, extremes, violation counts and revenue, one grouping pass that
//! finds each calendar month's grid peaks before and after shaving, and
//! the derived economics.

use vstd::prelude::*;
use chrono::Datelike;
use crate::arith::min_spec;
use crate::arith::max_spec;
use crate::arith::mul_div_floor;
use crate::arith::mul_i128_div_floor;
use crate::arith::min_i64;
use crate::arith::max_i64;
use crate::model::timestamp_ok;
use crate::config::SimulationConfig;
use crate::config::SimulationSummary;
use crate::config::config_ok;
use crate::config::lemma_mul_div_le;
use crate::config::PER_MILLE;
use crate::config::CAPACITY_ABS_MAX;
use crate::config::PRICE_PER_KWH_MAX;
use crate::tick_result::SimulationTickResult;
use crate::tick_result::tick_result_ok;
use crate::tick_result::TICK_ABS_MAX;
use crate::engine::lemma_mul_div_signed_bound;
use crate::interpolation::STEP_MINUTES_MAX;
use crate::SAMPLE_ABS_MAX;

verus! {

/// Demand tariff: currency per kW of monthly peak reduction. Multiplying
/// a milli-kW saving by it gives milli-currency.
pub const MONTHLY_TARIFF_PER_KW: i64 = 10;

/// The calendar year, in the proleptic Gregorian calendar at UTC, of an
/// epoch-millisecond instant.
pub uninterp spec fn utc_year_of(millis: i64) -> int;

/// The calendar month, 1 to 12, at UTC of an epoch-millisecond instant.
pub uninterp spec fn utc_month_of(millis: i64) -> int;

/// Relies on chrono: `DateTime::from_timestamp_millis` with the `Datelike`
/// accessors `year` and `month`. The UTC calendar date is a function of
/// the millisecond value alone, the month lies between 1 and 12, and any
/// instant within `timestamp_ok` is inside chrono's supported range.
#[verifier::external_body]
fn utc_year_month(millis: i64) -> (r: (i32, u32))
    requires
        timestamp_ok(millis as int),
    ensures
        r.0 as int == utc_year_of(millis),
        r.1 as int == utc_month_of(millis),
        1 <= r.1 <= 12,
{
    let dt = chrono::DateTime::<chrono::Utc>::from_timestamp_millis(millis).unwrap();
    (dt.year(), dt.month())
}

/// The month an instant falls in, numbered consecutively across years.
pub open spec fn month_key_of(millis: i64) -> int {
    utc_year_of(millis) * 12 + (utc_month_of(millis) - 1)
}

/// The month key of an instant, as the grouping pass computes it.
fn month_key(millis: i64) -> (k: i64)
    requires
        timestamp_ok(millis as int),
    ensures
        k as int == month_key_of(millis),
{
    let (y, m) = utc_year_month(millis);
    (y as i64) * 12 + (m as i64 - 1)
}

/// Summed balancing energy delivered over a result sequence.
pub open spec fn total_srl_out(s: Seq<SimulationTickResult>) -> int
    decreases s.len(),
{
    if s.len() == 0 {
        0
    } else {
        total_srl_out(s.drop_last()) + s.last().srl_energy_out_kwh
    }
}

/// Summed balancing energy absorbed over a result sequence.
pub open spec fn total_srl_in(s: Seq<SimulationTickResult>) -> int
    decreases s.len(),
{
    if s.len() == 0 {
        0
    } else {
        total_srl_in(s.drop_last()) + s.last().srl_energy_in_kwh
    }
}

/// Summed peak-shaving discharge energy: each tick's discharge power
/// turned into energy with the run's timestep.
pub open spec fn total_ps_out(s: Seq<SimulationTickResult>, ts: int) -> int
    decreases s.len(),
{
    if s.len() == 0 {
        0
    } else {
        total_ps_out(s.drop_last(), ts) + s.last().battery_out_kw * ts / 60
    }
}

/// Summed peak-shaving charge energy.
pub open spec fn total_ps_in(s: Seq<SimulationTickResult>, ts: int) -> int
    decreases s.len(),
{
    if s.len() == 0 {
        0
    } else {
        total_ps_in(s.drop_last(), ts) + s.last().battery_in_kw * ts / 60
    }
}

/// Lowest state of charge over a result sequence; `i64::MAX` when empty.
pub open spec fn min_soc_seen(s: Seq<SimulationTickResult>) -> int
    decreases s.len(),
{
    if s.len() == 0 {
        i64::MAX as int
    } else {
        min_spec(min_soc_seen(s.drop_last()), s.last().soc_kwh as int)
    }
}

/// Highest state of charge over a result sequence; `i64::MIN` when empty.
pub open spec fn max_soc_seen(s: Seq<SimulationTickResult>) -> int
    decreases s.len(),
{
    if s.len() == 0 {
        i64::MIN as int
    } else {
        max_spec(max_soc_seen(s.drop_last()), s.last().soc_kwh as int)
    }
}

/// Number of ticks flagged for passing the transformer limit.
pub open spec fn violation_count(s: Seq<SimulationTickResult>) -> int
    decreases s.len(),
{
    if s.len() == 0 {
        0
    } else {
        violation_count(s.drop_last()) + if s.last().transformer_violation {
            1int
        } else {
            0int
        }
    }
}

/// Summed balancing revenue of both directions.
pub open spec fn revenue_total(s: Seq<SimulationTickResult>) -> int
    decreases s.len(),
{
    if s.len() == 0 {
        0
    } else {
        revenue_total(s.drop_last()) + s.last().srl_revenue_pos_chf + s.last().srl_revenue_neg_chf
    }
}

/// The distinct month keys of a result sequence, in order of first
/// appearance.
pub open spec fn month_keys(s: Seq<SimulationTickResult>) -> Seq<int>
    decreases s.len(),
{
    if s.len() == 0 {
        Seq::empty()
    } else {
        let ks = month_keys(s.drop_last());
        if ks.contains(month_key_of(s.last().timestamp)) {
            ks
        } else {
            ks.push(month_key_of(s.last().timestamp))
        }
    }
}

/// Highest grid power before battery action among the ticks of month `k`;
/// `i64::MIN` where the month has no tick.
pub open spec fn peak_before(s: Seq<SimulationTickResult>, k: int) -> int
    decreases s.len(),
{
    if s.len() == 0 {
        i64::MIN as int
    } else if month_key_of(s.last().timestamp) == k {
        max_spec(peak_before(s.drop_last(), k), s.last().original_grid_kw as int)
    } else {
        peak_before(s.drop_last(), k)
    }
}

/// Highest grid power after battery action among the ticks of month `k`.
pub open spec fn peak_after(s: Seq<SimulationTickResult>, k: int) -> int
    decreases s.len(),
{
    if s.len() == 0 {
        i64::MIN as int
    } else if month_key_of(s.last().timestamp) == k {
        max_spec(peak_after(s.drop_last(), k), s.last().final_grid_kw as int)
    } else {
        peak_after(s.drop_last(), k)
    }
}

/// Savings over a list of month keys: for each month the positive part of
/// the peak reduction, priced at the monthly demand tariff.
pub open spec fn savings_over_keys(s: Seq<SimulationTickResult>, ks: Seq<int>) -> int
    decreases ks.len(),
{
    if ks.len() == 0 {
        0
    } else {
        savings_over_keys(s, ks.drop_last()) + max_spec(
            peak_before(s, ks.last()) - peak_after(s, ks.last()),
            0,
        ) * MONTHLY_TARIFF_PER_KW
    }
}

/// Total peak-shaving savings of a run: summed over its distinct months.
pub open spec fn savings_total(s: Seq<SimulationTickResult>) -> int {
    savings_over_keys(s, month_keys(s))
}

/// Battery cycles over the run, in milli-cycles: total throughput of both
/// paths against twice the observed usable range; zero when that range is
/// empty.
pub open spec fn cycles_spec(s: Seq<SimulationTickResult>, ts: int) -> int {
    let usable = max_soc_seen(s) - min_soc_seen(s);
    if usable > 0 {
        (total_ps_out(s, ts) + total_ps_in(s, ts) + total_srl_out(s) + total_srl_in(s)) * 500
            / usable
    } else {
        0
    }
}

/// Investment for the configured battery, milli-currency.
pub open spec fn investment_of(c: SimulationConfig) -> int {
    c.capacity_kwh * c.battery_price_per_kwh_chf / (PER_MILLE as int)
}

/// Operating cost, milli-currency: the configured rate on the investment.
pub open spec fn operating_cost_of(c: SimulationConfig) -> int {
    investment_of(c) * c.operating_cost_rate / (PER_MILLE as int)
}

/// A month key that appears in a sequence has at least one tick, so both
/// of its peaks lie within the tick bounds.
proof fn lemma_peak_bounds(s: Seq<SimulationTickResult>, k: int)
    requires
        forall|i: int| 0 <= i < s.len() ==> tick_result_ok(#[trigger] s[i]),
        month_keys(s).contains(k),
    ensures
        -TICK_ABS_MAX <= peak_before(s, k) <= TICK_ABS_MAX,
        -TICK_ABS_MAX <= peak_after(s, k) <= TICK_ABS_MAX,
    decreases s.len(),
{
    lemma_peak_upper(s, k);
    let d = s.drop_last();
    assert forall|i: int| 0 <= i < d.len() implies tick_result_ok(#[trigger] d[i]) by {
        assert(d[i] == s[i]);
    }
    if month_key_of(s.last().timestamp) == k {
        assert(tick_result_ok(s[s.len() - 1]));
    } else {
        assert(month_keys(d).contains(k));
        lemma_peak_bounds(d, k);
    }
}

/// Peaks never pass the largest tick value, whether or not the month
/// appears.
proof fn lemma_peak_upper(s: Seq<SimulationTickResult>, k: int)
    requires
        forall|i: int| 0 <= i < s.len() ==> tick_result_ok(#[trigger] s[i]),
    ensures
        peak_before(s, k) <= TICK_ABS_MAX,
        peak_after(s, k) <= TICK_ABS_MAX,
    decreases s.len(),
{
    if s.len() > 0 {
        let d = s.drop_last();
        assert forall|i: int| 0 <= i < d.len() implies tick_result_ok(#[trigger] d[i]) by {
            assert(d[i] == s[i]);
        }
        lemma_peak_upper(d, k);
        assert(tick_result_ok(s[s.len() - 1]));
    }
}

/// Reduces a run's tick results to the aggregate report: energy totals,
/// state-of-charge extremes, violation count, balancing revenue, monthly
/// peak-shaving savings, cycle count, and the payback estimate, which is
/// absent exactly when the run earned nothing.
#[verifier::loop_isolation(false)]
pub fn summarize(ticks: &Vec<SimulationTickResult>, config: &SimulationConfig) -> (s:
    SimulationSummary)
    requires
        config_ok(*config),
        forall|i: int| 0 <= i < ticks@.len() ==> tick_result_ok(#[trigger] ticks@[i]),
        ticks@.len() <= 1_000_000_000_000,
    ensures
        s.total_ticks == ticks@.len(),
        s.total_srl_out_kwh == total_srl_out(ticks@),
        s.total_srl_in_kwh == total_srl_in(ticks@),
        s.total_ps_out_kwh == total_ps_out(ticks@, config.timestep_minutes as int),
        s.total_ps_in_kwh == total_ps_in(ticks@, config.timestep_minutes as int),
        s.min_soc_kwh == min_soc_seen(ticks@),
        s.max_soc_kwh == max_soc_seen(ticks@),
        s.transformer_violations == violation_count(ticks@),
        s.total_srl_revenue_chf == revenue_total(ticks@),
        s.peak_shaving_savings_chf == savings_total(ticks@),
        s.battery_cycles == cycles_spec(ticks@, config.timestep_minutes as int),
        (s.amortization_years is Some) <==> revenue_total(ticks@) + savings_total(ticks@) > 0,
        s.amortization_years is Some ==> s.amortization_years->0 == (investment_of(*config)
            + operating_cost_of(*config)) * 1000 / (revenue_total(ticks@) + savings_total(ticks@)),
{
    let cfg = *config;
    let ts_min = cfg.timestep_minutes;

    let mut total_srl_out_kwh: i128 = 0;
    let mut total_srl_in_kwh: i128 = 0;
    let mut total_ps_out_kwh: i128 = 0;
    let mut total_ps_in_kwh: i128 = 0;
    let mut min_soc: i64 = i64::MAX;
    let mut max_soc: i64 = i64::MIN;
    let mut violations: usize = 0;
    let mut revenue: i128 = 0;
    let mut keys: Vec<i64> = Vec::new();

    let mut i: usize = 0;
    while i < ticks.len()
        invariant
            i <= ticks@.len(),
            total_srl_out_kwh == total_srl_out(ticks@.take(i as int)),
            total_srl_in_kwh == total_srl_in(ticks@.take(i as int)),
            total_ps_out_kwh == total_ps_out(ticks@.take(i as int), ts_min as int),
            total_ps_in_kwh == total_ps_in(ticks@.take(i as int), ts_min as int),
            min_soc == min_soc_seen(ticks@.take(i as int)),
            max_soc == max_soc_seen(ticks@.take(i as int)),
            violations == violation_count(ticks@.take(i as int)),
            violations <= i,
            revenue == revenue_total(ticks@.take(i as int)),
            -200_000_000_000_000_000 * (i as int) <= total_srl_out_kwh <= 200_000_000_000_000_000
                * (i as int),
            -200_000_000_000_000_000 * (i as int) <= total_srl_in_kwh <= 200_000_000_000_000_000 * (
            i as int),
            -200_000_000_000_000_000 * (i as int) <= total_ps_out_kwh <= 200_000_000_000_000_000 * (
            i as int),
            -200_000_000_000_000_000 * (i as int) <= total_ps_in_kwh <= 200_000_000_000_000_000 * (
            i as int),
            -200_000_000_000_000_000 * (i as int) <= revenue <= 200_000_000_000_000_000 * (
            i as int),
            keys@.len() == month_keys(ticks@.take(i as int)).len(),
            forall|j: int|
                0 <= j < keys@.len() ==> #[trigger] keys@[j] as int == month_keys(
                    ticks@.take(i as int),
                )[j],
        decreases ticks@.len() - i,
    {
        let t = ticks[i];
        proof {
            assert(ticks@.take(i + 1).drop_last() =~= ticks@.take(i as int));
            assert(ticks@.take(i + 1).last() == ticks@[i as int]);
            lemma_mul_div_signed_bound(
                t.battery_out_kw as int,
                ts_min as int,
                60,
                SAMPLE_ABS_MAX as int,
                STEP_MINUTES_MAX as int,
            );
            lemma_mul_div_signed_bound(
                t.battery_in_kw as int,
                ts_min as int,
                60,
                SAMPLE_ABS_MAX as int,
                STEP_MINUTES_MAX as int,
            );
        }
        total_srl_out_kwh = total_srl_out_kwh + t.srl_energy_out_kwh as i128;
        total_srl_in_kwh = total_srl_in_kwh + t.srl_energy_in_kwh as i128;
        total_ps_out_kwh = total_ps_out_kwh + mul_div_floor(t.battery_out_kw, ts_min, 60) as i128;
        total_ps_in_kwh = total_ps_in_kwh + mul_div_floor(t.battery_in_kw, ts_min, 60) as i128;
        min_soc = min_i64(min_soc, t.soc_kwh);
        max_soc = max_i64(max_soc, t.soc_kwh);
        if t.transformer_violation {
            violations = violations + 1;
        }
        revenue = revenue + t.srl_revenue_pos_chf as i128 + t.srl_revenue_neg_chf as i128;

        let key = month_key(t.timestamp);
        let mut found = false;
        let mut j: usize = 0;
        while j < keys.len()
            invariant
                j <= keys@.len(),
                found ==> month_keys(ticks@.take(i as int)).contains(key as int),
                !found ==> forall|m: int| 0 <= m < j ==> #[trigger] keys@[m] != key,
            decreases keys@.len() - j,
        {
            if keys[j] == key {
                found = true;
                proof {
                    assert(keys@[j as int] as int == month_keys(ticks@.take(i as int))[j as int]);
                }
            }
            j = j + 1;
        }
        if !found {
            proof {
                let ks = month_keys(ticks@.take(i as int));
                if ks.contains(key as int) {
                    let w = choose|w: int| 0 <= w < ks.len() && ks[w] == key as int;
                    assert(keys@[w] as int == ks[w]);
                    assert(keys@[w] == key);
                }
            }
            keys.push(key);
        }
        i = i + 1;
    }
    proof {
        assert(ticks@.take(ticks@.len() as int) =~= ticks@);
    }

    // Monthly peak-shaving savings: one pass per distinct month.
    let mut savings: i128 = 0;
    let mut j: usize = 0;
    while j < keys.len()
        invariant
            j <= keys@.len(),
            savings == savings_over_keys(ticks@, month_keys(ticks@).take(j as int)),
            -2_000_000_000_000_000_000 * (j as int) <= savings <= 2_000_000_000_000_000_000 * (
            j as int),
        decreases keys@.len() - j,
    {
        let key = keys[j];
        let mut before: i64 = i64::MIN;
        let mut after: i64 = i64::MIN;
        let mut m: usize = 0;
        while m < ticks.len()
            invariant
                m <= ticks@.len(),
                before == peak_before(ticks@.take(m as int), key as int),
                after == peak_after(ticks@.take(m as int), key as int),
            decreases ticks@.len() - m,
        {
            let t = ticks[m];
            proof {
                assert(ticks@.take(m + 1).drop_last() =~= ticks@.take(m as int));
                assert(ticks@.take(m + 1).last() == ticks@[m as int]);
            }
            let tk = month_key(t.timestamp);
            if tk == key {
                before = max_i64(before, t.original_grid_kw);
                after = max_i64(after, t.final_grid_kw);
            }
            m = m + 1;
        }
        proof {
            assert(ticks@.take(ticks@.len() as int) =~= ticks@);
            assert(month_keys(ticks@).contains(key as int)) by {
                assert(keys@[j as int] as int == month_keys(ticks@)[j as int]);
            }
            lemma_peak_bounds(ticks@, key as int);
            assert(month_keys(ticks@).take(j + 1).drop_last() =~= month_keys(ticks@).take(
                j as int,
            ));
            assert(month_keys(ticks@).take(j + 1).last() == month_keys(ticks@)[j as int]);
        }
        let saved = max_i64(before - after, 0);
        savings = savings + (saved as i128) * (MONTHLY_TARIFF_PER_KW as i128);
        j = j + 1;
    }
    proof {
        assert(month_keys(ticks@).take(month_keys(ticks@).len() as int) =~= month_keys(ticks@));
    }

    // Battery cycles over the observed usable range.
    let usable: i128 = max_soc as i128 - min_soc as i128;
    let battery_cycles: i128 = if usable > 0 {
        let throughput = total_ps_out_kwh + total_ps_in_kwh + total_srl_out_kwh + total_srl_in_kwh;
        mul_i128_div_floor(throughput, 500, usable)
    } else {
        0
    };

    // Economics: investment, operating cost, payback.
    proof {
        lemma_mul_div_le(
            cfg.capacity_kwh as int,
            cfg.battery_price_per_kwh_chf as int,
            PER_MILLE as int,
            CAPACITY_ABS_MAX as int,
            PRICE_PER_KWH_MAX as int,
        );
    }
    let invest = mul_div_floor(cfg.capacity_kwh, cfg.battery_price_per_kwh_chf, PER_MILLE);
    let op_cost = mul_i128_div_floor(invest as i128, cfg.operating_cost_rate as i128, PER_MILLE as i128);
    proof {
        lemma_mul_div_le(
            invest as int,
            cfg.operating_cost_rate as int,
            PER_MILLE as int,
            1_000_000_000_000_000_000,
            1_000_000,
        );
    }
    let total_revenue: i128 = revenue + savings;
    let amortization_years: Option<i128> = if total_revenue > 0 {
        Some(mul_i128_div_floor(invest as i128 + op_cost, 1000, total_revenue))
    } else {
        None
    };

    SimulationSummary {
        total_ticks: ticks.len(),
        total_srl_out_kwh,
        total_srl_in_kwh,
        total_ps_out_kwh,
        total_ps_in_kwh,
        min_soc_kwh: min_soc,
        max_soc_kwh: max_soc,
        transformer_violations: violations,
        total_srl_revenue_chf: revenue,
        peak_shaving_savings_chf: savings,
        amortization_years,
        battery_cycles,
    }
}

} // verus!
