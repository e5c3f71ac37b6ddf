//! What the tasks of the control unit decide.
//!
//! Each function takes what a task sees and gives back what the task is to
//! do; reaching the hardware is left to the caller.

use crate::decoder::event_of;
use crate::decoder::step;
use crate::decoder::CrankDecoder;
use crate::decoder::EdgeEvent;
use crate::decoder::SyncModel;
use crate::config::Engine;
use crate::estimator::estimate;
use crate::estimator::estimate_of;
use crate::config::EngineConfig;
use crate::injectors::battery_multiplier;
use crate::injectors::BatteryTable;
use crate::injectors::InjectionError;
use crate::injectors::NEUTRAL;
use crate::sensors::SensorTypes;
use crate::sensors::SensorValues;
use crate::status::EngineStatus;
use crate::timing::calculate_time_isr;
use crate::timing::divisor_for;
use crate::timing::pulse_outcome;
use crate::timing::recorded_width;
use crate::timing::Corrections;
use crate::timing::DivisorPolicy;
use crate::timing::InjectionPulse;
use crate::timing::PulseLimits;
use vstd::prelude::*;

verus! {

/// Time for which the revolution marker stays lit, in microseconds.
pub const MARKER_US: u32 = 50_000;

/// Time between two changes of the heartbeat light, in milliseconds.
pub const BLINK_PERIOD_MS: u32 = 100;

/// What the crank handler is to do after an edge.
#[derive(Clone, Copy, Debug, PartialEq, Eq, Structural)]
pub struct CkpActions {
    /// What the edge meant for the synchronization.
    pub event: EdgeEvent,
    /// Time for which to light the revolution marker, if this edge is the
    /// reference of a revolution.
    pub marker_us: Option<u32>,
}

/// Level of a light.
#[derive(Clone, Copy, Debug, PartialEq, Eq, Structural)]
pub enum LedLevel {
    Low,
    High,
}

/// The outputs that can be exercised on the bench.
#[derive(Clone, Copy, Debug, PartialEq, Eq, Structural)]
pub enum Demo {
    Spark,
    Injector,
    ExternalIdle,
    Relay,
}

/// The status agrees with a decoder state: tick, speed and angle are those
/// of that one state, or all three are cleared where it is not
/// synchronized.
pub open spec fn status_matches(status: EngineStatus, e: Engine, s: SyncModel) -> bool {
    match estimate_of(e, s) {
        Some(est) => {
            &&& status.cycle_tick == s.tooth_index
            &&& status.rpm == Some(est.rpm)
            &&& status.phase == Some(est.phase)
        },
        None => {
            &&& status.cycle_tick == 0
            &&& status.rpm is None
            &&& status.phase is None
        },
    }
}

/// The marker time that goes with an event: the reference edges light the
/// marker, no other edge does.
pub open spec fn marker_for(event: EdgeEvent) -> Option<u32> {
    if event is SyncReference || event is SyncAcquired {
        Some(MARKER_US)
    } else {
        None
    }
}

/// Handles one edge of the crank sensor: moves the decoder on and brings
/// tick, speed and angle of the status up to date, all three from the same
/// decoder state.
pub fn ckp_trigger(decoder: &mut CrankDecoder, status: &mut EngineStatus, timestamp: u64) -> (actions:
    CkpActions)
    ensures
        final(decoder).engine() == old(decoder).engine(),
        final(decoder)@ == step(old(decoder).engine(), old(decoder)@, timestamp as int),
        status_matches(*final(status), final(decoder).engine(), final(decoder)@),
        final(status).injection == old(status).injection,
        final(status).wf(&final(decoder).engine()),
        actions.event == event_of(old(decoder)@.phase, final(decoder)@),
        actions.marker_us == marker_for(actions.event),
{
    let event = decoder.on_edge(timestamp);
    match estimate(decoder) {
        Some(est) => {
            let tick = match decoder.tooth_index() {
                Some(index) => index,
                None => 0,
            };
            status.cycle_tick = tick;
            status.rpm = Some(est.rpm);
            status.phase = Some(est.phase);
        },
        None => {
            status.cycle_tick = 0;
            status.rpm = None;
            status.phase = None;
        },
    }
    let marker_us = match event {
        EdgeEvent::SyncReference => Some(MARKER_US),
        EdgeEvent::SyncAcquired => Some(MARKER_US),
        _ => None,
    };
    CkpActions { event, marker_us }
}

/// The limits of a pulse at an engine speed.  No pulse is longer than one
/// revolution takes, and none is shorter than the driver can execute,
/// unless a whole revolution is shorter than that.
pub open spec fn limits_at(min_executable: u64, rpm: u32) -> PulseLimits
    recommends
        rpm > 0,
{
    let turn = (60_000_000int / (rpm as int)) as u64;
    PulseLimits {
        min_width: if min_executable < turn {
            min_executable
        } else {
            turn
        },
        max_width: turn,
    }
}

/// The correction factors for the readings stored last.
pub open spec fn corrections_for(table: Option<&BatteryTable>, sensors: SensorValues) -> Corrections {
    Corrections {
        battery: match table {
            Some(t) => battery_multiplier(
                t@,
                sensors.value(SensorTypes::BatteryVoltage) as int,
            ) as u16,
            None => NEUTRAL,
        },
        pressure: 0,
        wall_wetting: NEUTRAL,
    }
}

/// The limits of a pulse at an engine speed in revolutions per minute;
/// `None` for an engine that stands still.
pub fn limits_at_speed(min_executable: u64, rpm: u32) -> (limits: Option<PulseLimits>)
    ensures
        limits == (if rpm > 0 {
            Some(limits_at(min_executable, rpm))
        } else {
            None
        }),
        limits matches Some(l) ==> l.min_width <= l.max_width <= 60_000_000,
{
    if rpm == 0 {
        return None;
    }
    let turn: u64 = 60_000_000 / (rpm as u64);
    let min_width: u64 = if min_executable < turn {
        min_executable
    } else {
        turn
    };
    Some(PulseLimits { min_width, max_width: turn })
}

/// Computes the injector pulse that goes with the edge just handled and
/// records its width in the status.
///
/// While the engine speed is unknown no pulse is computed: the outcome is
/// [`InjectionError::SpeedUnknown`] and the recorded width is zero.
/// Otherwise the pulse is computed for the requested fuel mass with the
/// divisor that the policy gives for the engine, the corrections for the
/// readings stored last, and the limits at the current speed.
pub fn cpwm_callback(
    status: &mut EngineStatus,
    cfg: &EngineConfig,
    sensors: &SensorValues,
    table: Option<&BatteryTable>,
    policy: &DivisorPolicy,
    fuel: u32,
    min_executable: u64,
) -> (result: Result<InjectionPulse, InjectionError>)
    ensures
        final(status).cycle_tick == old(status).cycle_tick,
        final(status).rpm == old(status).rpm,
        final(status).phase == old(status).phase,
        final(status).injection.fuel_flow_rate == old(status).injection.fuel_flow_rate,
        final(status).injection.pulse_width == recorded_width(result),
        result == (match old(status).rpm {
            Some(rpm) if rpm > 0 => pulse_outcome(
                old(status).injection.fuel_flow_rate,
                fuel,
                divisor_for(
                    policy.rules@,
                    policy.fallback,
                    cfg.engine.cylinder_count,
                    cfg.engine.injection_mode,
                ),
                corrections_for(table, *sensors),
                limits_at(min_executable, rpm),
            ),
            _ => Err::<InjectionPulse, InjectionError>(InjectionError::SpeedUnknown),
        }),
{
    let limits = match status.rpm {
        Some(rpm) => limits_at_speed(min_executable, rpm),
        None => None,
    };
    match limits {
        Some(limits) => {
            let corrections = Corrections::gather(table, sensors.get(SensorTypes::BatteryVoltage));
            let divisor = policy.divisor(cfg.engine.cylinder_count, cfg.engine.injection_mode);
            calculate_time_isr(&mut status.injection, fuel, divisor, &corrections, &limits)
        },
        None => {
            status.injection.pulse_width = 0;
            Err(InjectionError::SpeedUnknown)
        },
    }
}

/// One beat of the heartbeat light: the light takes the level that the
/// state calls for, and the state flips for the next beat.
pub fn blink(state: &mut bool) -> (level: LedLevel)
    ensures
        *final(state) == !*old(state),
        level == (if *old(state) {
            LedLevel::High
        } else {
            LedLevel::Low
        }),
{
    if *state {
        *state = false;
        LedLevel::High
    } else {
        *state = true;
        LedLevel::Low
    }
}

/// The output that a bench command exercises: spark, injector, idle valve
/// and relay for the modes zero to three, the idle valve for every other.
pub fn debug_demo(demo_mode: u8) -> (demo: Demo)
    ensures
        demo == (if demo_mode == 0 {
            Demo::Spark
        } else if demo_mode == 1 {
            Demo::Injector
        } else if demo_mode == 3 {
            Demo::Relay
        } else {
            Demo::ExternalIdle
        }),
{
    match demo_mode {
        0 => Demo::Spark,
        1 => Demo::Injector,
        2 => Demo::ExternalIdle,
        3 => Demo::Relay,
        _ => Demo::ExternalIdle,
    }
}

} // verus!
