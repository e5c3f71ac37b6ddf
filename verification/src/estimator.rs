//! Engine speed and crank angle, derived from the decoder.
//!
//! Speed comes from the mean of the recent regular tooth intervals, the
//! angle from the tooth index.  Both are known only while the decoder is
//! synchronized; otherwise the estimate is `None`, never a value left over
//! from before.

use crate::decoder::mean_interval;
use crate::decoder::CrankDecoder;
use crate::config::Engine;
use vstd::prelude::*;

verus! {

/// Microseconds in one minute.
pub const MICROS_PER_MINUTE: u64 = 60_000_000;

/// One full turn, in thousandths of a degree.
pub const FULL_TURN: u32 = 360_000;

/// Revolutions per minute of a wheel with `tooth_count` tooth positions
/// whose teeth follow each other every `interval` microseconds.
pub open spec fn rpm_of(interval: int, tooth_count: int) -> int
    recommends
        interval > 0,
        tooth_count > 0,
{
    60_000_000int / (interval * tooth_count)
}

/// Crank angle at a tooth, in thousandths of a degree.
pub open spec fn phase_of(tooth_index: int, tooth_count: int) -> int
    recommends
        0 <= tooth_index < tooth_count,
{
    tooth_index * 360_000 / tooth_count
}

/// Speed and angle at one edge.
#[derive(Clone, Copy, Debug, PartialEq, Eq, Structural)]
pub struct Estimate {
    /// Revolutions per minute.
    pub rpm: u32,
    /// Crank angle in thousandths of a degree, below a full turn.
    pub phase: u32,
}

/// The speed is never above the number of microseconds in a minute.
pub proof fn lemma_rpm_bounds(interval: int, tooth_count: int)
    requires
        interval > 0,
        tooth_count > 0,
    ensures
        0 <= rpm_of(interval, tooth_count) <= 60_000_000,
{
    let d = interval * tooth_count;
    assert(d >= 1) by (nonlinear_arith)
        requires
            d == interval * tooth_count,
            interval > 0,
            tooth_count > 0,
    ;
    vstd::arithmetic::div_mod::lemma_div_pos_is_pos(60_000_000, d);
    vstd::arithmetic::div_mod::lemma_fundamental_div_mod(60_000_000, d);
    vstd::arithmetic::div_mod::lemma_mod_bound(60_000_000, d);
    let q = 60_000_000int / d;
    assert(q <= 60_000_000) by (nonlinear_arith)
        requires
            d * q <= 60_000_000,
            d >= 1,
            q >= 0,
    ;
}

/// The angle at a tooth of the wheel is below a full turn.
pub proof fn lemma_phase_bounds(tooth_index: int, tooth_count: int)
    requires
        0 <= tooth_index < tooth_count,
    ensures
        0 <= phase_of(tooth_index, tooth_count) < 360_000,
{
    let n = tooth_index * 360_000;
    vstd::arithmetic::div_mod::lemma_div_pos_is_pos(n, tooth_count);
    vstd::arithmetic::div_mod::lemma_fundamental_div_mod(n, tooth_count);
    vstd::arithmetic::div_mod::lemma_mod_bound(n, tooth_count);
    let q = n / tooth_count;
    assert(q < 360_000) by (nonlinear_arith)
        requires
            tooth_count * q <= tooth_index * 360_000,
            0 <= tooth_index < tooth_count,
            q >= 0,
    ;
}

/// Halving the tooth interval doubles the speed, up to the one revolution
/// per minute that rounding down can cost.
pub proof fn lemma_halved_interval_doubles_rpm(interval: int, tooth_count: int)
    requires
        interval > 0,
        tooth_count > 0,
    ensures
        2 * rpm_of(2 * interval, tooth_count) <= rpm_of(interval, tooth_count) <= 2 * rpm_of(
            2 * interval,
            tooth_count,
        ) + 1,
{
    let d = interval * tooth_count;
    let dd = (2 * interval) * tooth_count;
    assert(d >= 1 && dd == 2 * d) by (nonlinear_arith)
        requires
            d == interval * tooth_count,
            dd == (2 * interval) * tooth_count,
            interval > 0,
            tooth_count > 0,
    ;
    let slow = 60_000_000int / dd;
    let fast = 60_000_000int / d;
    vstd::arithmetic::div_mod::lemma_fundamental_div_mod(60_000_000, dd);
    vstd::arithmetic::div_mod::lemma_mod_bound(60_000_000, dd);
    vstd::arithmetic::div_mod::lemma_fundamental_div_mod(60_000_000, d);
    vstd::arithmetic::div_mod::lemma_mod_bound(60_000_000, d);
    assert(2 * slow <= fast <= 2 * slow + 1) by (nonlinear_arith)
        requires
            dd == 2 * d,
            d >= 1,
            dd * slow <= 60_000_000 < dd * slow + dd,
            d * fast <= 60_000_000 < d * fast + d,
    ;
}

/// Revolutions per minute from a tooth interval in microseconds; `None`
/// for an interval or a tooth count of zero.
pub fn rpm_from_interval(interval: u64, tooth_count: u32) -> (rpm: Option<u32>)
    ensures
        rpm is Some <==> interval > 0 && tooth_count > 0,
        rpm matches Some(v) ==> v == rpm_of(interval as int, tooth_count as int),
{
    if interval == 0 || tooth_count == 0 {
        return None;
    }
    let wide: u128 = interval as u128;
    let teeth: u128 = tooth_count as u128;
    assert(1 <= wide * teeth <= 0xffff_ffff_ffff_ffff * 0xffff_ffff) by (nonlinear_arith)
        requires
            1 <= wide <= 0xffff_ffff_ffff_ffff,
            1 <= teeth <= 0xffff_ffff,
    ;
    let turn: u128 = wide * teeth;
    let rpm: u128 = (MICROS_PER_MINUTE as u128) / turn;
    proof {
        lemma_rpm_bounds(interval as int, tooth_count as int);
    }
    Some(rpm as u32)
}

/// Crank angle at a tooth, in thousandths of a degree; `None` for an index
/// that is not on the wheel.
pub fn phase_from_tooth(tooth_index: u32, tooth_count: u32) -> (phase: Option<u32>)
    ensures
        phase is Some <==> tooth_index < tooth_count,
        phase matches Some(v) ==> v == phase_of(tooth_index as int, tooth_count as int) && v
            < FULL_TURN,
{
    if tooth_index >= tooth_count {
        return None;
    }
    let scaled: u64 = (tooth_index as u64) * 360_000;
    let phase: u64 = scaled / (tooth_count as u64);
    proof {
        lemma_phase_bounds(tooth_index as int, tooth_count as int);
    }
    Some(phase as u32)
}

/// The estimate that goes with a decoder state on a wheel: present exactly
/// while synchronized, with the speed of the mean recent interval and the
/// angle of the tooth index.
pub open spec fn estimate_of(e: Engine, s: crate::decoder::SyncModel) -> Option<Estimate> {
    if s.phase is Synchronized {
        Some(
            Estimate {
                rpm: rpm_of(mean_interval(s.window), e.ckp_tooth_count as int) as u32,
                phase: phase_of(s.tooth_index, e.ckp_tooth_count as int) as u32,
            },
        )
    } else {
        None
    }
}

/// Speed and angle at the last edge; `None` unless the decoder is
/// synchronized.
pub fn estimate(decoder: &CrankDecoder) -> (result: Option<Estimate>)
    ensures
        result == estimate_of(decoder.engine(), decoder@),
        result is Some <==> decoder@.phase is Synchronized,
        result matches Some(v) ==> v.phase < FULL_TURN && v.rpm <= MICROS_PER_MINUTE,
{
    let engine = decoder.wheel();
    let index = match decoder.tooth_index() {
        Some(index) => index,
        None => {
            return None;
        },
    };
    let mean = match decoder.smoothed_interval() {
        Some(mean) => mean,
        None => {
            return None;
        },
    };
    let rpm = match rpm_from_interval(mean, engine.ckp_tooth_count) {
        Some(rpm) => rpm,
        None => {
            return None;
        },
    };
    let phase = match phase_from_tooth(index, engine.ckp_tooth_count) {
        Some(phase) => phase,
        None => {
            return None;
        },
    };
    proof {
        lemma_rpm_bounds(mean as int, engine.ckp_tooth_count as int);
    }
    Some(Estimate { rpm, phase })
}

} // verus!
