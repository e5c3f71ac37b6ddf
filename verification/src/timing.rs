//! The injection timing calculation: from a requested fuel mass to the
//! pulse width that is handed to the injector driver.
//!
//! The base pulse width is scaled by the correction factors, rounded once,
//! and kept within the limits that the driver can execute.  A pulse that had
//! to be moved to a limit is marked, so that the caller can report it.

use crate::config::InjectionMode;
use crate::fixed::div_round;
use crate::fixed::round_div;
use crate::injectors::battery_multiplier;
use crate::injectors::get_battery_correction;
use crate::injectors::get_pressure_correction;
use crate::injectors::get_wall_wetting_correction;
use crate::injectors::fuel_mass_to_time;
use crate::injectors::pulse_width;
use crate::injectors::BatteryTable;
use crate::injectors::InjectionError;
use crate::injectors::NEUTRAL;
use crate::status::InjectionInfo;
use vstd::prelude::*;

verus! {

/// The number of injection events per cycle that is assumed where no rule
/// says otherwise.
pub const PROVISIONAL_DIVISOR: u32 = 2;

/// The number of injection events per cycle for one combination of
/// cylinder count and injection mode.
#[derive(Clone, Copy, Debug, PartialEq, Eq, Structural)]
pub struct DivisorRule {
    pub cylinder_count: u8,
    pub mode: InjectionMode,
    pub divisor: u32,
}

/// The divisor policy: rules by cylinder count and injection mode, and the
/// divisor for the combinations that no rule names.
pub struct DivisorPolicy {
    pub rules: Vec<DivisorRule>,
    pub fallback: u32,
}

/// The divisor that a policy gives: that of the first rule for the
/// combination, or the fallback where there is no such rule.
pub open spec fn divisor_for(
    rules: Seq<DivisorRule>,
    fallback: u32,
    cylinder_count: u8,
    mode: InjectionMode,
) -> u32
    decreases rules.len(),
{
    if rules.len() == 0 {
        fallback
    } else if rule_matches(rules[0], cylinder_count, mode) {
        rules[0].divisor
    } else {
        divisor_for(rules.skip(1), fallback, cylinder_count, mode)
    }
}

/// Whether a rule is the one for an engine.
pub open spec fn rule_matches(rule: DivisorRule, cylinder_count: u8, mode: InjectionMode) -> bool {
    rule.cylinder_count == cylinder_count && rule.mode == mode
}

/// Where no rule is for the engine, the divisor is the fallback; otherwise
/// it is that of a rule for the engine which no other such rule precedes.
pub proof fn lemma_divisor_is_of_first_rule(
    rules: Seq<DivisorRule>,
    fallback: u32,
    cylinder_count: u8,
    mode: InjectionMode,
)
    ensures
        ({
            let divisor = divisor_for(rules, fallback, cylinder_count, mode);
            ||| {
                &&& divisor == fallback
                &&& forall|j: int|
                    0 <= j < rules.len() ==> !rule_matches(
                        #[trigger] rules[j],
                        cylinder_count,
                        mode,
                    )
            }
            ||| exists|i: int|
                {
                    &&& 0 <= i < rules.len()
                    &&& rule_matches(#[trigger] rules[i], cylinder_count, mode)
                    &&& divisor == rules[i].divisor
                    &&& forall|j: int|
                        0 <= j < i ==> !rule_matches(#[trigger] rules[j], cylinder_count, mode)
                }
        }),
    decreases rules.len(),
{
    if rules.len() > 0 {
        if rule_matches(rules[0], cylinder_count, mode) {
            assert(rule_matches(rules[0], cylinder_count, mode) && divisor_for(
                rules,
                fallback,
                cylinder_count,
                mode,
            ) == rules[0].divisor);
        } else {
            let rest = rules.skip(1);
            lemma_divisor_is_of_first_rule(rest, fallback, cylinder_count, mode);
            let divisor = divisor_for(rest, fallback, cylinder_count, mode);
            if exists|i: int|
                {
                    &&& 0 <= i < rest.len()
                    &&& rule_matches(#[trigger] rest[i], cylinder_count, mode)
                    &&& divisor == rest[i].divisor
                    &&& forall|j: int|
                        0 <= j < i ==> !rule_matches(#[trigger] rest[j], cylinder_count, mode)
                } {
                let i = choose|i: int|
                    {
                        &&& 0 <= i < rest.len()
                        &&& rule_matches(#[trigger] rest[i], cylinder_count, mode)
                        &&& divisor == rest[i].divisor
                        &&& forall|j: int|
                            0 <= j < i ==> !rule_matches(#[trigger] rest[j], cylinder_count, mode)
                    };
                assert(rest[i] == rules[i + 1]);
                assert forall|j: int| 0 <= j < i + 1 implies !rule_matches(
                    #[trigger] rules[j],
                    cylinder_count,
                    mode,
                ) by {
                    if j > 0 {
                        assert(rest[j - 1] == rules[j]);
                    }
                }
                assert(rule_matches(rules[i + 1], cylinder_count, mode) && divisor
                    == rules[i + 1].divisor);
            } else {
                assert forall|j: int| 0 <= j < rules.len() implies !rule_matches(
                    #[trigger] rules[j],
                    cylinder_count,
                    mode,
                ) by {
                    if j > 0 {
                        assert(rest[j - 1] == rules[j]);
                    }
                }
            }
        }
    }
}

impl DivisorPolicy {
    /// The policy without rules: every engine gets the provisional divisor.
    pub fn provisional() -> (policy: DivisorPolicy)
        ensures
            policy.rules@.len() == 0,
            policy.fallback == PROVISIONAL_DIVISOR,
    {
        DivisorPolicy { rules: Vec::new(), fallback: PROVISIONAL_DIVISOR }
    }

    /// The number of injection events per cycle for an engine.
    pub fn divisor(&self, cylinder_count: u8, mode: InjectionMode) -> (divisor: u32)
        ensures
            divisor == divisor_for(self.rules@, self.fallback, cylinder_count, mode),
    {
        let mut i: usize = 0;
        assert(self.rules@.skip(0) =~= self.rules@);
        while i < self.rules.len()
            invariant
                i <= self.rules.len(),
                divisor_for(self.rules@, self.fallback, cylinder_count, mode) == divisor_for(
                    self.rules@.skip(i as int),
                    self.fallback,
                    cylinder_count,
                    mode,
                ),
            decreases self.rules.len() - i,
        {
            let rule = &self.rules[i];
            if rule.cylinder_count == cylinder_count && rule.mode == mode {
                return rule.divisor;
            }
            assert(self.rules@.skip(i as int).skip(1) =~= self.rules@.skip(i + 1));
            i += 1;
        }
        self.fallback
    }
}

/// The correction factors of one computation, in thousandths.  `battery`
/// and `wall_wetting` multiply the pulse width; `pressure` is a fraction
/// that is added to one before it multiplies.
#[derive(Clone, Copy, Debug, PartialEq, Eq, Structural)]
pub struct Corrections {
    pub battery: u16,
    pub pressure: u16,
    pub wall_wetting: u16,
}

impl Corrections {
    /// Every factor is a positive multiplier.
    pub open spec fn wf(&self) -> bool {
        self.battery > 0 && self.wall_wetting > 0
    }

    /// The factors that change nothing.
    pub fn neutral() -> (c: Corrections)
        ensures
            c.battery == NEUTRAL,
            c.pressure == 0,
            c.wall_wetting == NEUTRAL,
            c.wf(),
    {
        Corrections { battery: NEUTRAL, pressure: 0, wall_wetting: NEUTRAL }
    }

    /// The factors for the supply voltage sampled last.
    pub fn gather(table: Option<&BatteryTable>, millivolts: u16) -> (c: Corrections)
        ensures
            c.wf(),
            c.pressure == 0,
            c.wall_wetting == NEUTRAL,
            match table {
                None => c.battery == NEUTRAL,
                Some(t) => c.battery == battery_multiplier(t@, millivolts as int),
            },
    {
        Corrections {
            battery: get_battery_correction(table, millivolts),
            pressure: get_pressure_correction(),
            wall_wetting: get_wall_wetting_correction(),
        }
    }
}

/// The pulse width after the corrections:
/// width x battery x (1 + pressure) x wall wetting, rounded once.
pub open spec fn effective_pulse_width(width: int, c: Corrections) -> int {
    round_div(width * c.battery * (1000 + c.pressure) * c.wall_wetting, 1_000_000_000)
}

/// The shortest pulse that the driver can execute and the longest that fits
/// at the current engine speed, in microseconds.
#[derive(Clone, Copy, Debug, PartialEq, Eq, Structural)]
pub struct PulseLimits {
    pub min_width: u64,
    pub max_width: u64,
}

/// Whether a pulse had to be moved to a limit.
#[derive(Clone, Copy, Debug, PartialEq, Eq, Structural)]
pub enum Clamp {
    Unclamped,
    RaisedToMinimum,
    LoweredToMaximum,
}

/// What the injector is to do.
#[derive(Clone, Copy, Debug, PartialEq, Eq, Structural)]
pub enum InjectionPulse {
    /// No fuel was requested: the injector stays closed.
    Cutoff,
    /// The injector opens for `width` microseconds.
    Open { width: u64, clamp: Clamp },
}

/// A width brought within the limits.
pub open spec fn clamp_width(width: int, limits: PulseLimits) -> int {
    if width < limits.min_width {
        limits.min_width as int
    } else if width > limits.max_width {
        limits.max_width as int
    } else {
        width
    }
}

/// The mark that goes with a width.
pub open spec fn clamp_of(width: int, limits: PulseLimits) -> Clamp {
    if width < limits.min_width {
        Clamp::RaisedToMinimum
    } else if width > limits.max_width {
        Clamp::LoweredToMaximum
    } else {
        Clamp::Unclamped
    }
}

/// The pulse for a positive fuel mass: base width, corrections, limits.
pub open spec fn injection_pulse(
    fuel: int,
    flow_rate: int,
    divisor: int,
    c: Corrections,
    limits: PulseLimits,
) -> InjectionPulse {
    let corrected = effective_pulse_width(pulse_width(fuel, flow_rate, divisor), c);
    InjectionPulse::Open {
        width: clamp_width(corrected, limits) as u64,
        clamp: clamp_of(corrected, limits),
    }
}

/// Applies the correction factors to a base pulse width.
pub fn apply_corrections(width: u64, c: &Corrections) -> (corrected: u128)
    ensures
        corrected == effective_pulse_width(width as int, *c),
{
    let battery: u128 = c.battery as u128;
    let pressure: u128 = 1000 + c.pressure as u128;
    let wall: u128 = c.wall_wetting as u128;
    let base: u128 = width as u128;
    assert(base * battery <= 0xffff_ffff_ffff_ffff * 0xffff) by (nonlinear_arith)
        requires
            base <= 0xffff_ffff_ffff_ffff,
            battery <= 0xffff,
    ;
    let first: u128 = base * battery;
    assert(first * pressure <= 0xffff_ffff_ffff_ffff * 0xffff * 0x1_ffff) by (nonlinear_arith)
        requires
            first <= 0xffff_ffff_ffff_ffff * 0xffff,
            pressure <= 0x1_ffff,
    ;
    let second: u128 = first * pressure;
    assert(second * wall <= 0xffff_ffff_ffff_ffff * 0xffff * 0x1_ffff * 0xffff)
        by (nonlinear_arith)
        requires
            second <= 0xffff_ffff_ffff_ffff * 0xffff * 0x1_ffff,
            wall <= 0xffff,
    ;
    let product: u128 = second * wall;
    div_round(product, 1_000_000_000)
}

/// Brings a corrected width within the limits and marks the move.  Where
/// the limits are crossed, the lower one is looked at first.
pub fn clamp_pulse(width: u128, limits: &PulseLimits) -> (pulse: InjectionPulse)
    ensures
        pulse == (InjectionPulse::Open {
            width: clamp_width(width as int, *limits) as u64,
            clamp: clamp_of(width as int, *limits),
        }),
        0 <= clamp_width(width as int, *limits) <= u64::MAX,
        limits.min_width <= limits.max_width ==> limits.min_width <= clamp_width(
            width as int,
            *limits,
        ) <= limits.max_width,
{
    if width < limits.min_width as u128 {
        InjectionPulse::Open { width: limits.min_width, clamp: Clamp::RaisedToMinimum }
    } else if width > limits.max_width as u128 {
        InjectionPulse::Open { width: limits.max_width, clamp: Clamp::LoweredToMaximum }
    } else {
        InjectionPulse::Open { width: width as u64, clamp: Clamp::Unclamped }
    }
}

/// The error, if any, that the inputs of a computation call for.  An unset
/// flow rate comes before everything else.
pub open spec fn injection_error(
    flow_rate: u64,
    divisor: u32,
    c: Corrections,
    limits: PulseLimits,
) -> Option<InjectionError> {
    if flow_rate == 0 {
        Some(InjectionError::FlowRateUnset)
    } else if divisor == 0 {
        Some(InjectionError::ZeroDivisor)
    } else if !c.wf() {
        Some(InjectionError::ZeroCorrection)
    } else if limits.min_width > limits.max_width {
        Some(InjectionError::InvalidLimits)
    } else {
        None
    }
}

/// What a computation gives: the error that its inputs call for, the
/// cutoff for a request of no fuel, and else the pulse.
pub open spec fn pulse_outcome(
    flow_rate: u64,
    fuel: u32,
    divisor: u32,
    c: Corrections,
    limits: PulseLimits,
) -> Result<InjectionPulse, InjectionError> {
    match injection_error(flow_rate, divisor, c, limits) {
        Some(e) => Err(e),
        None => if fuel == 0 {
            Ok(InjectionPulse::Cutoff)
        } else {
            Ok(injection_pulse(fuel as int, flow_rate as int, divisor as int, c, limits))
        },
    }
}

/// The width that is recorded for an outcome: that of the pulse, and zero
/// where the injector stays closed.
pub open spec fn recorded_width(outcome: Result<InjectionPulse, InjectionError>) -> u64 {
    match outcome {
        Ok(InjectionPulse::Open { width, .. }) => width,
        _ => 0,
    }
}

/// Computes the injector pulse for a requested fuel mass and records its
/// width in `status`.
///
/// A request for no fuel closes the injector, whatever the limits are.  An
/// unset flow rate and the other unusable inputs are errors; they record a
/// width of zero, which keeps the injector closed.
pub fn calculate_time_isr(
    status: &mut InjectionInfo,
    fuel: u32,
    divisor: u32,
    corrections: &Corrections,
    limits: &PulseLimits,
) -> (result: Result<InjectionPulse, InjectionError>)
    ensures
        final(status).fuel_flow_rate == old(status).fuel_flow_rate,
        result == pulse_outcome(old(status).fuel_flow_rate, fuel, divisor, *corrections, *limits),
        final(status).pulse_width == recorded_width(result),
        result matches Ok(InjectionPulse::Open { width, .. }) ==> limits.min_width <= width
            <= limits.max_width,
{
    status.pulse_width = 0;
    let base = match fuel_mass_to_time(status, fuel, divisor) {
        Ok(width) => width,
        Err(e) => {
            return Err(e);
        },
    };
    if corrections.battery == 0 || corrections.wall_wetting == 0 {
        return Err(InjectionError::ZeroCorrection);
    }
    if limits.min_width > limits.max_width {
        return Err(InjectionError::InvalidLimits);
    }
    if fuel == 0 {
        return Ok(InjectionPulse::Cutoff);
    }
    let corrected: u128 = apply_corrections(base, corrections);
    let pulse = clamp_pulse(corrected, limits);
    match pulse {
        InjectionPulse::Open { width, .. } => {
            status.pulse_width = width;
        },
        InjectionPulse::Cutoff => {},
    }
    Ok(pulse)
}

} // verus!
