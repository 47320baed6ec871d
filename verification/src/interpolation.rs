//! Linear interpolation, time-grid generation, and resampling of the two
//! measured series onto a grid.
//!
//! For each grid instant `t` the resampler takes the last input sample with
//! timestamp at most `t` and the first input sample with timestamp greater
//! than `t`; when both exist every numeric field is interpolated linearly
//! between them, and when either is missing the record is zero-filled.

use vstd::prelude::*;
use vstd::arithmetic::div_mod::lemma_fundamental_div_mod_converse_div;
use vstd::arithmetic::div_mod::lemma_div_multiples_vanish;
use vstd::arithmetic::div_mod::lemma_div_is_ordered;
use crate::arith::fits_i64;
use crate::arith::min_spec;
use crate::arith::max_spec;
use crate::arith::mul_div_floor;
use crate::model::LoadEntry;
use crate::model::SRLEntry;
use crate::model::load_entry_ok;
use crate::model::srl_entry_ok;
use crate::model::load_strictly_sorted;
use crate::model::srl_strictly_sorted;
use crate::model::sample_ok;
use crate::model::timestamp_ok;

verus! {

/// Milliseconds in one minute.
pub const MS_PER_MINUTE: i64 = 60_000;

/// Largest accepted grid step, in minutes.
pub const STEP_MINUTES_MAX: i64 = 1_000_000;

/// The value linearly interpolated between `(t0, v0)` and `(t1, v1)` at
/// time `t`, rounded toward negative infinity; `v0` when the bracket is
/// degenerate.
pub open spec fn interp_spec(t0: int, t1: int, v0: int, v1: int, t: int) -> int {
    if t1 == t0 {
        v0
    } else {
        v0 + (t - t0) * (v1 - v0) / (t1 - t0)
    }
}

/// For a target inside the bracket the interpolated value lies between the
/// two sample values.
pub proof fn lemma_interp_range(t0: int, t1: int, v0: int, v1: int, t: int)
    requires
        t0 <= t <= t1,
    ensures
        min_spec(v0, v1) <= interp_spec(t0, t1, v0, v1, t) <= max_spec(v0, v1),
{
    if t1 != t0 {
        let dt = t1 - t0;
        let dv = v1 - v0;
        let num = (t - t0) * dv;
        if dv >= 0 {
            assert(0 <= num <= dt * dv) by (nonlinear_arith)
                requires
                    0 <= t - t0 <= dt,
                    dv >= 0,
                    num == (t - t0) * dv,
            ;
            lemma_div_is_ordered(0, num, dt);
            lemma_div_is_ordered(num, dt * dv, dt);
            lemma_div_multiples_vanish(dv, dt);
            assert(dt * dv / dt == dv);
        } else {
            assert(dt * dv <= num <= 0) by (nonlinear_arith)
                requires
                    0 <= t - t0 <= dt,
                    dv < 0,
                    num == (t - t0) * dv,
            ;
            lemma_div_is_ordered(num, 0, dt);
            lemma_div_is_ordered(dt * dv, num, dt);
            lemma_div_multiples_vanish(dv, dt);
            assert(dt * dv / dt == dv);
        }
    }
}

/// The interpolation returns the first sample value at the left end of the
/// bracket and the second at the right end.
pub proof fn lemma_interp_endpoints(t0: int, t1: int, v0: int, v1: int)
    requires
        t0 <= t1,
    ensures
        interp_spec(t0, t1, v0, v1, t0) == v0,
        t1 != t0 ==> interp_spec(t0, t1, v0, v1, t1) == v1,
{
    if t1 != t0 {
        let dt = t1 - t0;
        assert((t0 - t0) * (v1 - v0) == 0) by (nonlinear_arith);
        assert(0int / dt == 0) by {
            lemma_div_multiples_vanish(0, dt);
        }
        assert((t1 - t0) * (v1 - v0) == dt * (v1 - v0));
        lemma_div_multiples_vanish(v1 - v0, dt);
    }
}

/// At the exact midpoint of a bracket of even width the interpolation is
/// the midpoint of the two values.
pub proof fn lemma_interp_midpoint(t0: int, t1: int, v0: int, v1: int)
    requires
        t0 < t1,
        (t1 - t0) % 2 == 0,
    ensures
        interp_spec(t0, t1, v0, v1, (t0 + t1) / 2) == (v0 + v1) / 2,
{
    let dt = t1 - t0;
    let h = dt / 2;
    let t = (t0 + t1) / 2;
    assert(dt == 2 * h) by {
        vstd::arithmetic::div_mod::lemma_fundamental_div_mod(dt, 2);
    }
    assert(1 <= h < dt);
    assert(t0 + t1 == 2 * (t0 + h));
    lemma_div_multiples_vanish(t0 + h, 2);
    assert(t == t0 + h);
    let dv = v1 - v0;
    let q = dv / 2;
    let r = dv % 2;
    assert(dv == 2 * q + r && 0 <= r < 2) by {
        vstd::arithmetic::div_mod::lemma_fundamental_div_mod(dv, 2);
    }
    if r == 0 {
        assert(h * dv == dt * q + 0) by (nonlinear_arith)
            requires
                dt == 2 * h,
                dv == 2 * q,
        ;
        lemma_fundamental_div_mod_converse_div(h * dv, dt, q, 0);
    } else {
        assert(r == 1);
        assert(h * dv == dt * q + h) by (nonlinear_arith)
            requires
                dt == 2 * h,
                dv == 2 * q + 1,
        ;
        assert(0 <= h < dt);
        lemma_fundamental_div_mod_converse_div(h * dv, dt, q, h);
    }
    assert((t - t0) * dv == h * dv);
    assert(interp_spec(t0, t1, v0, v1, t) == v0 + q);
    assert(v0 + q == (v0 + v1) / 2) by {
        assert(v0 + v1 == 2 * (v0 + q) + r) by (nonlinear_arith)
            requires
                dv == 2 * q + r,
                dv == v1 - v0,
        ;
        lemma_fundamental_div_mod_converse_div(v0 + v1, 2, v0 + q, r);
    }
}

/// Linear interpolation of a scalar between two time-stamped samples.
/// The caller supplies a legitimate bracket around the target.
pub fn interpolate_scalar(t0: i64, t1: i64, v0: i64, v1: i64, target: i64) -> (r: i64)
    requires
        timestamp_ok(t0 as int),
        timestamp_ok(t1 as int),
        sample_ok(v0 as int),
        sample_ok(v1 as int),
        t0 <= target <= t1,
    ensures
        r == interp_spec(t0 as int, t1 as int, v0 as int, v1 as int, target as int),
        sample_ok(r as int),
{
    if t1 == t0 {
        v0
    } else {
        proof {
            lemma_interp_range(t0 as int, t1 as int, v0 as int, v1 as int, target as int);
            assert(fits_i64((target - t0) * (v1 - v0) / (t1 - t0) as int));
        }
        let q = mul_div_floor(target - t0, v1 - v0, t1 - t0);
        v0 + q
    }
}

/// The `i`-th point of the grid that starts at `start` with a step of
/// `step_ms` milliseconds.
pub open spec fn grid_point(start: int, step_ms: int, i: int) -> int {
    start + i * step_ms
}

/// An ordered, evenly spaced sequence of instants from `start` up to the
/// largest grid point that does not pass `end`; empty exactly when `end`
/// lies before `start`.
#[verifier::loop_isolation(false)]
pub fn generate_time_grid(start: i64, end: i64, step_minutes: i64) -> (times: Vec<i64>)
    requires
        timestamp_ok(start as int),
        timestamp_ok(end as int),
        1 <= step_minutes <= STEP_MINUTES_MAX,
    ensures
        end < start ==> times@.len() == 0,
        start <= end ==> times@.len() == (end - start) / (step_minutes * MS_PER_MINUTE as int) + 1,
        forall|i: int|
            0 <= i < times@.len() ==> #[trigger] times@[i] == grid_point(
                start as int,
                step_minutes * MS_PER_MINUTE as int,
                i,
            ),
        forall|i: int| 0 <= i < times@.len() ==> start <= #[trigger] times@[i] <= end,
{
    let step_ms: i64 = step_minutes * MS_PER_MINUTE;
    let mut times: Vec<i64> = Vec::new();
    let mut current: i64 = start;
    while current <= end
        invariant
            times@.len() * step_ms == current - start,
            current == grid_point(start as int, step_ms as int, times@.len() as int),
            start <= current,
            times@.len() > 0 ==> current - step_ms <= end,
            forall|i: int|
                0 <= i < times@.len() ==> #[trigger] times@[i] == grid_point(
                    start as int,
                    step_ms as int,
                    i,
                ),
            forall|i: int| 0 <= i < times@.len() ==> start <= #[trigger] times@[i] <= end,
        decreases end + step_ms - current,
    {
        times.push(current);
        proof {
            assert((times@.len() as int) * step_ms == (times@.len() - 1) * step_ms + step_ms)
                by (nonlinear_arith);
        }
        current = current + step_ms;
    }
    proof {
        let n = times@.len() as int;
        if n > 0 {
            assert(n * step_ms - step_ms == (n - 1) * step_ms) by (nonlinear_arith);
            assert((n - 1) * step_ms >= 0) by (nonlinear_arith)
                requires
                    n >= 1,
                    step_ms > 0,
            ;
        }
        if start <= end {
            assert(n >= 1);
            let rem = end - (current - step_ms);
            assert(end - start == (n - 1) * step_ms + rem);
            assert(0 <= rem < step_ms);
            lemma_fundamental_div_mod_converse_div(end - start, step_ms as int, n - 1, rem);
        }
    }
    times
}

/// Index of the last sample whose timestamp is at most `t`, or `-1` when
/// every sample lies after `t`.
pub open spec fn prev_index_load(s: Seq<LoadEntry>, t: int) -> int
    decreases s.len(),
{
    if s.len() == 0 {
        -1
    } else if s[s.len() - 1].timestamp <= t {
        s.len() - 1
    } else {
        prev_index_load(s.drop_last(), t)
    }
}

/// Index of the first sample whose timestamp is greater than `t`, or `-1`
/// when no sample lies after `t`.
pub open spec fn next_index_load(s: Seq<LoadEntry>, t: int) -> int
    decreases s.len(),
{
    if s.len() == 0 {
        -1
    } else if next_index_load(s.drop_last(), t) != -1 {
        next_index_load(s.drop_last(), t)
    } else if s[s.len() - 1].timestamp > t {
        s.len() - 1
    } else {
        -1
    }
}

/// What `prev_index_load` finds: the last sample at or before `t`.
pub proof fn lemma_prev_index_load(s: Seq<LoadEntry>, t: int)
    ensures
        prev_index_load(s, t) == -1 ==> forall|i: int|
            0 <= i < s.len() ==> #[trigger] s[i].timestamp > t,
        prev_index_load(s, t) != -1 ==> {
            &&& 0 <= prev_index_load(s, t) < s.len()
            &&& s[prev_index_load(s, t)].timestamp <= t
            &&& forall|i: int|
                prev_index_load(s, t) < i < s.len() ==> #[trigger] s[i].timestamp > t
        },
    decreases s.len(),
{
    if s.len() > 0 && s[s.len() - 1].timestamp > t {
        let d = s.drop_last();
        lemma_prev_index_load(d, t);
        assert forall|i: int| 0 <= i < d.len() implies #[trigger] d[i] == s[i] by {}
        let r = prev_index_load(s, t);
        if r == -1 {
            assert forall|i: int| 0 <= i < s.len() implies #[trigger] s[i].timestamp > t by {
                if i < s.len() - 1 {
                    assert(d[i] == s[i]);
                    assert(d[i].timestamp > t);
                }
            }
        } else {
            assert(s[r] == d[r]);
            assert forall|i: int| r < i < s.len() implies #[trigger] s[i].timestamp > t by {
                if i < s.len() - 1 {
                    assert(d[i] == s[i]);
                    assert(d[i].timestamp > t);
                }
            }
        }
    }
}

/// What `next_index_load` finds: the first sample strictly after `t`.
pub proof fn lemma_next_index_load(s: Seq<LoadEntry>, t: int)
    ensures
        next_index_load(s, t) == -1 ==> forall|i: int|
            0 <= i < s.len() ==> #[trigger] s[i].timestamp <= t,
        next_index_load(s, t) != -1 ==> {
            &&& 0 <= next_index_load(s, t) < s.len()
            &&& s[next_index_load(s, t)].timestamp > t
            &&& forall|i: int|
                0 <= i < next_index_load(s, t) ==> #[trigger] s[i].timestamp <= t
        },
    decreases s.len(),
{
    if s.len() > 0 {
        let d = s.drop_last();
        lemma_next_index_load(d, t);
        assert forall|i: int| 0 <= i < d.len() implies #[trigger] d[i] == s[i] by {}
        let r = next_index_load(s, t);
        if r == -1 {
            assert forall|i: int| 0 <= i < s.len() implies #[trigger] s[i].timestamp <= t by {
                if i < s.len() - 1 {
                    assert(d[i] == s[i]);
                    assert(d[i].timestamp <= t);
                }
            }
        } else if next_index_load(d, t) != -1 {
            assert(s[r] == d[r]);
            assert forall|i: int| 0 <= i < r implies #[trigger] s[i].timestamp <= t by {
                assert(d[i] == s[i]);
                assert(d[i].timestamp <= t);
            }
        } else {
            assert(r == s.len() - 1);
            assert forall|i: int| 0 <= i < r implies #[trigger] s[i].timestamp <= t by {
                assert(d[i] == s[i]);
                assert(d[i].timestamp <= t);
            }
        }
    }
}

/// The resampled power reading at instant `t`: interpolated between the
/// bracketing samples when both exist, zero otherwise.
pub open spec fn resample_load_at(s: Seq<LoadEntry>, t: int) -> int {
    let p = prev_index_load(s, t);
    let n = next_index_load(s, t);
    if p != -1 && n != -1 {
        interp_spec(s[p].timestamp as int, s[n].timestamp as int, s[p].power_kw as int, s[n].power_kw as int, t)
    } else {
        0
    }
}

/// Projects a load series onto a grid, one output sample per grid instant.
#[verifier::loop_isolation(false)]
pub fn interpolate_load_to_1min(input: &Vec<LoadEntry>, target_timestamps: &Vec<i64>) -> (result: Vec<LoadEntry>)
    requires
        forall|i: int| 0 <= i < input@.len() ==> load_entry_ok(#[trigger] input@[i]),
        forall|i: int| 0 <= i < target_timestamps@.len() ==> timestamp_ok(#[trigger] target_timestamps@[i] as int),
    ensures
        result@.len() == target_timestamps@.len(),
        forall|g: int|
            0 <= g < result@.len() ==> (#[trigger] result@[g]).timestamp == target_timestamps@[g],
        forall|g: int|
            0 <= g < result@.len() ==> (#[trigger] result@[g]).power_kw == resample_load_at(
                input@,
                target_timestamps@[g] as int,
            ),
        forall|g: int| 0 <= g < result@.len() ==> load_entry_ok(#[trigger] result@[g]),
{
    let mut result: Vec<LoadEntry> = Vec::new();
    let mut g: usize = 0;
    while g < target_timestamps.len()
        invariant
            result@.len() == g as int,
            g <= target_timestamps@.len(),
            forall|k: int|
                0 <= k < g ==> (#[trigger] result@[k]).timestamp == target_timestamps@[k],
            forall|k: int|
                0 <= k < g ==> (#[trigger] result@[k]).power_kw == resample_load_at(
                    input@,
                    target_timestamps@[k] as int,
                ),
            forall|k: int| 0 <= k < g ==> load_entry_ok(#[trigger] result@[k]),
        decreases target_timestamps@.len() - g,
    {
        let ts = target_timestamps[g];
        let mut prev: Option<usize> = None;
        let mut next: Option<usize> = None;
        let mut j: usize = 0;
        while j < input.len()
            invariant
                j <= input@.len(),
                prev is Some ==> prev_index_load(input@.take(j as int), ts as int) == prev->0 as int,
                prev is None ==> prev_index_load(input@.take(j as int), ts as int) == -1,
                next is Some ==> next_index_load(input@.take(j as int), ts as int) == next->0 as int,
                next is None ==> next_index_load(input@.take(j as int), ts as int) == -1,
            decreases input@.len() - j,
        {
            proof {
                assert(input@.take(j + 1).drop_last() =~= input@.take(j as int));
                assert(input@.take(j + 1).last() == input@[j as int]);
            }
            if input[j].timestamp <= ts {
                prev = Some(j);
            } else {
                if next.is_none() {
                    next = Some(j);
                }
            }
            j = j + 1;
        }
        proof {
            assert(input@.take(input@.len() as int) =~= input@);
        }
        let value: i64 = match (prev, next) {
            (Some(p), Some(n)) => {
                proof {
                    lemma_prev_index_load(input@, ts as int);
                    lemma_next_index_load(input@, ts as int);
                }
                interpolate_scalar(
                    input[p].timestamp,
                    input[n].timestamp,
                    input[p].power_kw,
                    input[n].power_kw,
                    ts,
                )
            },
            _ => 0,
        };
        result.push(LoadEntry { timestamp: ts, power_kw: value });
        g = g + 1;
    }
    result
}

/// Index of the last balancing sample whose timestamp is at most `t`, or
/// `-1` when every sample lies after `t`.
pub open spec fn prev_index_srl(s: Seq<SRLEntry>, t: int) -> int
    decreases s.len(),
{
    if s.len() == 0 {
        -1
    } else if s[s.len() - 1].timestamp <= t {
        s.len() - 1
    } else {
        prev_index_srl(s.drop_last(), t)
    }
}

/// Index of the first balancing sample whose timestamp is greater than
/// `t`, or `-1` when no sample lies after `t`.
pub open spec fn next_index_srl(s: Seq<SRLEntry>, t: int) -> int
    decreases s.len(),
{
    if s.len() == 0 {
        -1
    } else if next_index_srl(s.drop_last(), t) != -1 {
        next_index_srl(s.drop_last(), t)
    } else if s[s.len() - 1].timestamp > t {
        s.len() - 1
    } else {
        -1
    }
}

/// What `prev_index_srl` finds: the last sample at or before `t`.
pub proof fn lemma_prev_index_srl(s: Seq<SRLEntry>, t: int)
    ensures
        prev_index_srl(s, t) == -1 ==> forall|i: int|
            0 <= i < s.len() ==> #[trigger] s[i].timestamp > t,
        prev_index_srl(s, t) != -1 ==> {
            &&& 0 <= prev_index_srl(s, t) < s.len()
            &&& s[prev_index_srl(s, t)].timestamp <= t
            &&& forall|i: int|
                prev_index_srl(s, t) < i < s.len() ==> #[trigger] s[i].timestamp > t
        },
    decreases s.len(),
{
    if s.len() > 0 && s[s.len() - 1].timestamp > t {
        let d = s.drop_last();
        lemma_prev_index_srl(d, t);
        assert forall|i: int| 0 <= i < d.len() implies #[trigger] d[i] == s[i] by {}
        let r = prev_index_srl(s, t);
        if r == -1 {
            assert forall|i: int| 0 <= i < s.len() implies #[trigger] s[i].timestamp > t by {
                if i < s.len() - 1 {
                    assert(d[i] == s[i]);
                    assert(d[i].timestamp > t);
                }
            }
        } else {
            assert(s[r] == d[r]);
            assert forall|i: int| r < i < s.len() implies #[trigger] s[i].timestamp > t by {
                if i < s.len() - 1 {
                    assert(d[i] == s[i]);
                    assert(d[i].timestamp > t);
                }
            }
        }
    }
}

/// What `next_index_srl` finds: the first sample strictly after `t`.
pub proof fn lemma_next_index_srl(s: Seq<SRLEntry>, t: int)
    ensures
        next_index_srl(s, t) == -1 ==> forall|i: int|
            0 <= i < s.len() ==> #[trigger] s[i].timestamp <= t,
        next_index_srl(s, t) != -1 ==> {
            &&& 0 <= next_index_srl(s, t) < s.len()
            &&& s[next_index_srl(s, t)].timestamp > t
            &&& forall|i: int|
                0 <= i < next_index_srl(s, t) ==> #[trigger] s[i].timestamp <= t
        },
    decreases s.len(),
{
    if s.len() > 0 {
        let d = s.drop_last();
        lemma_next_index_srl(d, t);
        assert forall|i: int| 0 <= i < d.len() implies #[trigger] d[i] == s[i] by {}
        let r = next_index_srl(s, t);
        if r == -1 {
            assert forall|i: int| 0 <= i < s.len() implies #[trigger] s[i].timestamp <= t by {
                if i < s.len() - 1 {
                    assert(d[i] == s[i]);
                    assert(d[i].timestamp <= t);
                }
            }
        } else if next_index_srl(d, t) != -1 {
            assert(s[r] == d[r]);
            assert forall|i: int| 0 <= i < r implies #[trigger] s[i].timestamp <= t by {
                assert(d[i] == s[i]);
                assert(d[i].timestamp <= t);
            }
        } else {
            assert(r == s.len() - 1);
            assert forall|i: int| 0 <= i < r implies #[trigger] s[i].timestamp <= t by {
                assert(d[i] == s[i]);
                assert(d[i].timestamp <= t);
            }
        }
    }
}

/// The four resampled balancing fields at instant `t`, in the order
/// positive energy, negative energy, positive price, negative price:
/// interpolated between the bracketing samples when both exist, zero
/// otherwise. All four fields use the same bracket.
pub open spec fn resample_srl_at(s: Seq<SRLEntry>, t: int) -> (int, int, int, int) {
    let p = prev_index_srl(s, t);
    let n = next_index_srl(s, t);
    if p != -1 && n != -1 {
        (
            interp_spec(s[p].timestamp as int, s[n].timestamp as int, s[p].pos_energy_kwh as int, s[n].pos_energy_kwh as int, t),
            interp_spec(s[p].timestamp as int, s[n].timestamp as int, s[p].neg_energy_kwh as int, s[n].neg_energy_kwh as int, t),
            interp_spec(s[p].timestamp as int, s[n].timestamp as int, s[p].pos_price_eur_mwh as int, s[n].pos_price_eur_mwh as int, t),
            interp_spec(s[p].timestamp as int, s[n].timestamp as int, s[p].neg_price_eur_mwh as int, s[n].neg_price_eur_mwh as int, t),
        )
    } else {
        (0, 0, 0, 0)
    }
}

/// Projects a balancing series onto a grid, one output sample per grid
/// instant; energies and prices are interpolated independently with the
/// same bracket.
#[verifier::loop_isolation(false)]
pub fn interpolate_srl_to_1min(input: &Vec<SRLEntry>, target_timestamps: &Vec<i64>) -> (result: Vec<SRLEntry>)
    requires
        forall|i: int| 0 <= i < input@.len() ==> srl_entry_ok(#[trigger] input@[i]),
        forall|i: int| 0 <= i < target_timestamps@.len() ==> timestamp_ok(#[trigger] target_timestamps@[i] as int),
    ensures
        result@.len() == target_timestamps@.len(),
        forall|g: int|
            0 <= g < result@.len() ==> (#[trigger] result@[g]).timestamp == target_timestamps@[g],
        forall|g: int|
            0 <= g < result@.len() ==> {
                let v = resample_srl_at(input@, target_timestamps@[g] as int);
                &&& (#[trigger] result@[g]).pos_energy_kwh == v.0
                &&& result@[g].neg_energy_kwh == v.1
                &&& result@[g].pos_price_eur_mwh == v.2
                &&& result@[g].neg_price_eur_mwh == v.3
            },
        forall|g: int| 0 <= g < result@.len() ==> srl_entry_ok(#[trigger] result@[g]),
{
    let mut result: Vec<SRLEntry> = Vec::new();
    let mut g: usize = 0;
    while g < target_timestamps.len()
        invariant
            result@.len() == g as int,
            g <= target_timestamps@.len(),
            forall|k: int|
                0 <= k < g ==> (#[trigger] result@[k]).timestamp == target_timestamps@[k],
            forall|k: int|
                0 <= k < g ==> {
                    let v = resample_srl_at(input@, target_timestamps@[k] as int);
                    &&& (#[trigger] result@[k]).pos_energy_kwh == v.0
                    &&& result@[k].neg_energy_kwh == v.1
                    &&& result@[k].pos_price_eur_mwh == v.2
                    &&& result@[k].neg_price_eur_mwh == v.3
                },
            forall|k: int| 0 <= k < g ==> srl_entry_ok(#[trigger] result@[k]),
        decreases target_timestamps@.len() - g,
    {
        let ts = target_timestamps[g];
        let mut prev: Option<usize> = None;
        let mut next: Option<usize> = None;
        let mut j: usize = 0;
        while j < input.len()
            invariant
                j <= input@.len(),
                prev is Some ==> prev_index_srl(input@.take(j as int), ts as int) == prev->0 as int,
                prev is None ==> prev_index_srl(input@.take(j as int), ts as int) == -1,
                next is Some ==> next_index_srl(input@.take(j as int), ts as int) == next->0 as int,
                next is None ==> next_index_srl(input@.take(j as int), ts as int) == -1,
            decreases input@.len() - j,
        {
            proof {
                assert(input@.take(j + 1).drop_last() =~= input@.take(j as int));
                assert(input@.take(j + 1).last() == input@[j as int]);
            }
            if input[j].timestamp <= ts {
                prev = Some(j);
            } else {
                if next.is_none() {
                    next = Some(j);
                }
            }
            j = j + 1;
        }
        proof {
            assert(input@.take(input@.len() as int) =~= input@);
        }
        let entry: SRLEntry = match (prev, next) {
            (Some(p), Some(n)) => {
                proof {
                    lemma_prev_index_srl(input@, ts as int);
                    lemma_next_index_srl(input@, ts as int);
                }
                let t0 = input[p].timestamp;
                let t1 = input[n].timestamp;
                SRLEntry {
                    timestamp: ts,
                    pos_energy_kwh: interpolate_scalar(t0, t1, input[p].pos_energy_kwh, input[n].pos_energy_kwh, ts),
                    neg_energy_kwh: interpolate_scalar(t0, t1, input[p].neg_energy_kwh, input[n].neg_energy_kwh, ts),
                    pos_price_eur_mwh: interpolate_scalar(t0, t1, input[p].pos_price_eur_mwh, input[n].pos_price_eur_mwh, ts),
                    neg_price_eur_mwh: interpolate_scalar(t0, t1, input[p].neg_price_eur_mwh, input[n].neg_price_eur_mwh, ts),
                }
            },
            _ => SRLEntry {
                timestamp: ts,
                pos_energy_kwh: 0,
                neg_energy_kwh: 0,
                pos_price_eur_mwh: 0,
                neg_price_eur_mwh: 0,
            },
        };
        result.push(entry);
        g = g + 1;
    }
    result
}

/// Resampling a strictly increasing load series onto one of its own
/// timestamps gives back the original reading, at every index that still
/// has a later sample to close the bracket. At the final index the bracket
/// has no later sample and the resampler zero-fills instead.
pub proof fn lemma_resample_load_identity(s: Seq<LoadEntry>, i: int)
    requires
        load_strictly_sorted(s),
        0 <= i < s.len() - 1,
    ensures
        resample_load_at(s, s[i].timestamp as int) == s[i].power_kw,
{
    let t = s[i].timestamp as int;
    lemma_prev_index_load(s, t);
    lemma_next_index_load(s, t);
    let p = prev_index_load(s, t);
    let n = next_index_load(s, t);
    assert(p != -1);
    assert(p == i) by {
        if p < i {
            assert(s[i].timestamp > t);
        }
        if p > i {
            assert(s[i].timestamp < s[p].timestamp);
        }
    }
    assert(n != -1) by {
        if n == -1 {
            assert(s[i + 1].timestamp <= t);
        }
    }
    assert(n == i + 1) by {
        if n <= i {
            assert(s[n].timestamp <= s[i].timestamp);
        }
        if n > i + 1 {
            assert(s[i + 1].timestamp <= t);
        }
    }
    lemma_interp_endpoints(
        s[i].timestamp as int,
        s[i + 1].timestamp as int,
        s[i].power_kw as int,
        s[i + 1].power_kw as int,
    );
}

/// Resampling a strictly increasing balancing series onto one of its own
/// timestamps gives back all four original fields, at every index that
/// still has a later sample to close the bracket.
pub proof fn lemma_resample_srl_identity(s: Seq<SRLEntry>, i: int)
    requires
        srl_strictly_sorted(s),
        0 <= i < s.len() - 1,
    ensures
        resample_srl_at(s, s[i].timestamp as int) == (
            s[i].pos_energy_kwh as int,
            s[i].neg_energy_kwh as int,
            s[i].pos_price_eur_mwh as int,
            s[i].neg_price_eur_mwh as int,
        ),
{
    let t = s[i].timestamp as int;
    lemma_prev_index_srl(s, t);
    lemma_next_index_srl(s, t);
    let p = prev_index_srl(s, t);
    let n = next_index_srl(s, t);
    assert(p != -1);
    assert(p == i) by {
        if p < i {
            assert(s[i].timestamp > t);
        }
        if p > i {
            assert(s[i].timestamp < s[p].timestamp);
        }
    }
    assert(n != -1) by {
        if n == -1 {
            assert(s[i + 1].timestamp <= t);
        }
    }
    assert(n == i + 1) by {
        if n <= i {
            assert(s[n].timestamp <= s[i].timestamp);
        }
        if n > i + 1 {
            assert(s[i + 1].timestamp <= t);
        }
    }
    lemma_interp_endpoints(
        s[i].timestamp as int,
        s[i + 1].timestamp as int,
        s[i].pos_energy_kwh as int,
        s[i + 1].pos_energy_kwh as int,
    );
    lemma_interp_endpoints(
        s[i].timestamp as int,
        s[i + 1].timestamp as int,
        s[i].neg_energy_kwh as int,
        s[i + 1].neg_energy_kwh as int,
    );
    lemma_interp_endpoints(
        s[i].timestamp as int,
        s[i + 1].timestamp as int,
        s[i].pos_price_eur_mwh as int,
        s[i + 1].pos_price_eur_mwh as int,
    );
    lemma_interp_endpoints(
        s[i].timestamp as int,
        s[i + 1].timestamp as int,
        s[i].neg_price_eur_mwh as int,
        s[i + 1].neg_price_eur_mwh as int,
    );
}

} // verus!
