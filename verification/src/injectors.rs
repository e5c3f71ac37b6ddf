//! Injector flow and pulse width.
//!
//! The requested fuel mass is turned into the time for which an injector is
//! held open.  All fractional quantities are fixed-point values in
//! thousandths: a fuel mass of `10_000` is ten grams, a multiplier of `1000`
//! is neutral, and a pulse width of `27_778` is 27.778 milliseconds.

use crate::config::InjectorConfig;
use crate::fixed::div_round;
use crate::fixed::lemma_round_div_bounds;
use crate::fixed::round_div;
use crate::status::InjectionInfo;
use vstd::prelude::*;

verus! {

/// The density figure that the rated injector flow refers to.
pub const REFERENCE_DENSITY: u32 = 60;

/// The multiplier that changes nothing.
pub const NEUTRAL: u16 = 1000;

/// Why a configuration gives no usable flow rate.
#[derive(Clone, Copy, Debug, PartialEq, Eq, Structural)]
pub enum FlowError {
    /// The configured figures multiply to a flow of zero.
    Zero,
    /// The flow is too large to be held.
    OutOfRange,
}

/// Why no pulse width can be given.
#[derive(Clone, Copy, Debug, PartialEq, Eq, Structural)]
pub enum InjectionError {
    /// The flow rate is zero: it was never set, or the configuration is wrong.
    FlowRateUnset,
    /// The number of injection events per cycle is zero.
    ZeroDivisor,
    /// A multiplier that must be positive is zero.
    ZeroCorrection,
    /// The shortest allowed pulse is longer than the longest.
    InvalidLimits,
    /// The engine speed is not known: the decoder is not synchronized, or
    /// the engine stands still.
    SpeedUnknown,
}

/// One point of the battery table: at `millivolts` and above, up to the
/// next point, the injector opening time is scaled by `multiplier`.
#[derive(Clone, Copy, Debug, PartialEq, Eq, Structural)]
pub struct BatteryPoint {
    pub millivolts: u16,
    pub multiplier: u16,
}

/// The battery table: multipliers by supply voltage, in rising order of
/// voltage.
pub struct BatteryTable {
    points: Vec<BatteryPoint>,
}

/// The points are a usable table: there is at least one, every multiplier is
/// positive, and the voltages rise strictly.
pub open spec fn valid_battery_points(points: Seq<BatteryPoint>) -> bool {
    &&& points.len() > 0
    &&& forall|i: int| 0 <= i < points.len() ==> (#[trigger] points[i]).multiplier > 0
    &&& forall|i: int|
        0 < i < points.len() ==> points[i - 1].millivolts < (#[trigger] points[i]).millivolts
}

/// The multiplier that a table gives at a supply voltage: that of the last
/// point whose voltage is not above it, and that of the first point for a
/// voltage below the whole table.  An empty table gives the neutral one.
pub open spec fn battery_multiplier(points: Seq<BatteryPoint>, millivolts: int) -> int
    decreases points.len(),
{
    if points.len() == 0 {
        NEUTRAL as int
    } else if points.len() == 1 || points.last().millivolts <= millivolts {
        points.last().multiplier as int
    } else {
        battery_multiplier(points.drop_last(), millivolts)
    }
}

/// The multiplier of a usable table is that of one of its points: a point
/// that lies at or below the voltage, unless it is the first, and whose
/// successor, if it has one, lies above the voltage.
pub proof fn lemma_battery_multiplier_is_a_point(points: Seq<BatteryPoint>, millivolts: int)
    requires
        valid_battery_points(points),
    ensures
        exists|i: int|
            {
                &&& 0 <= i < points.len()
                &&& battery_multiplier(points, millivolts) == (#[trigger] points[i]).multiplier
                &&& (i == 0 || points[i].millivolts <= millivolts)
                &&& (i + 1 == points.len() || millivolts < points[i + 1].millivolts)
            },
    decreases points.len(),
{
    let last = points.len() - 1;
    if points.len() == 1 || points.last().millivolts <= millivolts {
        assert(battery_multiplier(points, millivolts) == points[last].multiplier);
    } else {
        let front = points.drop_last();
        assert forall|i: int| 0 <= i < front.len() implies (#[trigger] front[i]).multiplier
            > 0 by {
            assert(front[i] == points[i]);
        }
        assert forall|i: int| 0 < i < front.len() implies front[i - 1].millivolts < (
        #[trigger] front[i]).millivolts by {
            assert(front[i] == points[i]);
            assert(front[i - 1] == points[i - 1]);
        }
        lemma_battery_multiplier_is_a_point(front, millivolts);
        let i = choose|i: int|
            {
                &&& 0 <= i < front.len()
                &&& battery_multiplier(front, millivolts) == (#[trigger] front[i]).multiplier
                &&& (i == 0 || front[i].millivolts <= millivolts)
                &&& (i + 1 == front.len() || millivolts < front[i + 1].millivolts)
            };
        assert(front[i] == points[i]);
        if i + 1 < front.len() {
            assert(front[i + 1] == points[i + 1]);
        }
        assert(battery_multiplier(points, millivolts) == points[i].multiplier);
    }
}

/// The flow rate that a configuration implies:
/// pressure x rated flow x density / reference density, in thousandths.
pub open spec fn base_flow_rate(config: InjectorConfig) -> int {
    round_div(
        config.fuel_pressure * config.flow_cc_min * config.fuel_density,
        1000 * 1000 * REFERENCE_DENSITY,
    )
}

/// The time for which an injector must stay open to deliver `fuel` at
/// `flow_rate`, shared between `divisor` injection events per cycle: mass by
/// flow is seconds, a thousand times that is milliseconds, and the result
/// counts thousandths of those.
pub open spec fn pulse_width(fuel: int, flow_rate: int, divisor: int) -> int {
    round_div(fuel * 1000 * 1000, flow_rate * divisor)
}

/// The part of the opening time that does not depend on the fuel mass, in
/// microseconds.  The opening delay of the injector cancels out of it, so
/// the base time is zero whatever the configuration says.
pub fn get_base_time(cfg: &InjectorConfig) -> (time: u32)
    ensures
        time == 0,
{
    cfg.on_time - cfg.on_time
}

impl BatteryTable {
    /// The points of the table, in rising order of voltage.
    pub closed spec fn view(&self) -> Seq<BatteryPoint> {
        self.points@
    }

    #[verifier::type_invariant]
    spec fn well_formed(&self) -> bool {
        valid_battery_points(self.points@)
    }

    /// Makes a table of the points, or `None` where they are not a usable
    /// table.
    pub fn new(points: Vec<BatteryPoint>) -> (table: Option<BatteryTable>)
        ensures
            table is Some <==> valid_battery_points(points@),
            table matches Some(t) ==> t@ == points@,
    {
        if points.len() == 0 {
            return None;
        }
        let mut i: usize = 0;
        while i < points.len()
            invariant
                i <= points.len(),
                forall|k: int| 0 <= k < i ==> (#[trigger] points@[k]).multiplier > 0,
                forall|k: int|
                    0 < k < i ==> points@[k - 1].millivolts < (#[trigger] points@[k]).millivolts,
            decreases points.len() - i,
        {
            if points[i].multiplier == 0 {
                return None;
            }
            if i > 0 && points[i - 1].millivolts >= points[i].millivolts {
                return None;
            }
            i += 1;
        }
        Some(BatteryTable { points })
    }

    /// Number of points in the table.
    pub fn len(&self) -> (n: usize)
        ensures
            n == self@.len(),
            n > 0,
    {
        proof {
            use_type_invariant(self);
        }
        self.points.len()
    }

    /// The multiplier at a supply voltage.
    pub fn multiplier_at(&self, millivolts: u16) -> (multiplier: u16)
        ensures
            multiplier == battery_multiplier(self@, millivolts as int),
            multiplier > 0,
    {
        proof {
            use_type_invariant(self);
        }
        let mut i: usize = self.points.len() - 1;
        assert(self.points@.take(i + 1) =~= self.points@);
        while i > 0 && self.points[i].millivolts > millivolts
            invariant
                i < self.points.len(),
                battery_multiplier(self.points@, millivolts as int) == battery_multiplier(
                    self.points@.take(i + 1),
                    millivolts as int,
                ),
            decreases i,
        {
            assert(self.points@.take(i + 1).drop_last() =~= self.points@.take(i as int));
            i -= 1;
        }
        assert(self.points@.take(i + 1).last() == self.points@[i as int]);
        self.points[i].multiplier
    }
}

/// Multiplier that makes up for the slower opening of an injector at a lower
/// supply voltage.  Without a loaded table it is neutral.
pub fn get_battery_correction(table: Option<&BatteryTable>, millivolts: u16) -> (multiplier: u16)
    ensures
        multiplier > 0,
        match table {
            None => multiplier == NEUTRAL,
            Some(t) => multiplier == battery_multiplier(t@, millivolts as int),
        },
{
    match table {
        None => NEUTRAL,
        Some(t) => t.multiplier_at(millivolts),
    }
}

/// Contribution of the rail pressure to the pulse width, as a fraction that
/// is added to one.  No channel samples the rail pressure, so the
/// contribution is none.
pub fn get_pressure_correction() -> (fraction: u16)
    ensures
        fraction == 0,
{
    0
}

/// Multiplier for the fuel film on the intake walls.  There is no model of
/// the film, so the multiplier is neutral.
pub fn get_wall_wetting_correction() -> (multiplier: u16)
    ensures
        multiplier == NEUTRAL,
{
    NEUTRAL
}

/// Computes the flow rate from the configuration and stores it in `status`.
///
/// A flow of zero, or one too large to hold, is an error and leaves the
/// stored rate at zero, which keeps injection disabled.
pub fn set_injector_flow(status: &mut InjectionInfo, config: &InjectorConfig) -> (result: Result<
    (),
    FlowError,
>)
    ensures
        final(status).pulse_width == old(status).pulse_width,
        match result {
            Ok(()) => {
                &&& 0 < base_flow_rate(*config) <= u64::MAX
                &&& final(status).fuel_flow_rate == base_flow_rate(*config)
            },
            Err(FlowError::Zero) => {
                &&& base_flow_rate(*config) == 0
                &&& final(status).fuel_flow_rate == 0
            },
            Err(FlowError::OutOfRange) => {
                &&& base_flow_rate(*config) > u64::MAX
                &&& final(status).fuel_flow_rate == 0
            },
        },
{
    let pressure: u128 = config.fuel_pressure as u128;
    let rated: u128 = config.flow_cc_min as u128;
    let density: u128 = config.fuel_density as u128;
    assert(pressure * rated <= 0xffff_ffff * 0xffff_ffff) by (nonlinear_arith)
        requires
            pressure <= 0xffff_ffff,
            rated <= 0xffff_ffff,
    ;
    let partial: u128 = pressure * rated;
    assert(partial * density <= 0xffff_ffff * 0xffff_ffff * 0xffff_ffff) by (nonlinear_arith)
        requires
            partial <= 0xffff_ffff * 0xffff_ffff,
            density <= 0xffff_ffff,
    ;
    let product: u128 = partial * density;
    let scale: u128 = 1_000_000 * (REFERENCE_DENSITY as u128);
    let flow: u128 = div_round(product, scale);
    if flow == 0 {
        status.fuel_flow_rate = 0;
        Err(FlowError::Zero)
    } else if flow > u64::MAX as u128 {
        status.fuel_flow_rate = 0;
        Err(FlowError::OutOfRange)
    } else {
        status.fuel_flow_rate = flow as u64;
        Ok(())
    }
}

/// The rounded quotient of a dividend by a divisor of at least one is not
/// larger than the dividend.
proof fn lemma_round_div_le_dividend(n: int, d: int)
    requires
        n >= 0,
        d >= 1,
    ensures
        0 <= round_div(n, d) <= n,
{
    lemma_round_div_bounds(n, d);
    let q = round_div(n, d);
    assert(q <= n) by (nonlinear_arith)
        requires
            2 * d * q <= 2 * n + d,
            n >= 0,
            d >= 1,
            q >= 0,
    ;
}

/// Converts a fuel mass into the opening time of an injector.
///
/// A flow rate of zero is reported as [`InjectionError::FlowRateUnset`]; a
/// fuel mass of zero is a valid request and gives a pulse of zero.
pub fn fuel_mass_to_time(status: &InjectionInfo, fuel: u32, divisor: u32) -> (result: Result<
    u64,
    InjectionError,
>)
    ensures
        result == (if status.fuel_flow_rate == 0 {
            Err::<u64, InjectionError>(InjectionError::FlowRateUnset)
        } else if divisor == 0 {
            Err::<u64, InjectionError>(InjectionError::ZeroDivisor)
        } else {
            Ok::<u64, InjectionError>(
                pulse_width(fuel as int, status.fuel_flow_rate as int, divisor as int) as u64,
            )
        }),
        status.fuel_flow_rate != 0 && divisor != 0 ==> 0 <= pulse_width(
            fuel as int,
            status.fuel_flow_rate as int,
            divisor as int,
        ) <= fuel * 1000 * 1000,
{
    if status.fuel_flow_rate == 0 {
        return Err(InjectionError::FlowRateUnset);
    }
    if divisor == 0 {
        return Err(InjectionError::ZeroDivisor);
    }
    let flow: u128 = status.fuel_flow_rate as u128;
    let events: u128 = divisor as u128;
    assert(1 <= flow * events <= 0xffff_ffff_ffff_ffff * 0xffff_ffff) by (nonlinear_arith)
        requires
            1 <= flow <= 0xffff_ffff_ffff_ffff,
            1 <= events <= 0xffff_ffff,
    ;
    let denominator: u128 = flow * events;
    let numerator: u128 = (fuel as u128) * 1000 * 1000;
    let width: u128 = div_round(numerator, denominator);
    proof {
        lemma_round_div_le_dividend(numerator as int, denominator as int);
    }
    Ok(width as u64)
}

} // verus!
