//! The shared engine status: the one record that the crank handler writes
//! and the timing computation reads.

use crate::config::Engine;
use vstd::prelude::*;

verus! {

/// Fuel-delivery figures.  Fractional quantities are in thousandths.
#[derive(Clone, Copy, Debug, PartialEq, Eq, Structural)]
pub struct InjectionInfo {
    /// Fuel mass that the injectors deliver per second, thousandths of a
    /// gram; zero until the flow rate has been set from a configuration.
    pub fuel_flow_rate: u64,
    /// The pulse width computed last, microseconds.
    pub pulse_width: u64,
}

/// Rotational state of the engine together with its fuel figures.
#[derive(Clone, Copy, Debug, PartialEq, Eq, Structural)]
pub struct EngineStatus {
    /// Teeth counted since the last reference gap.
    pub cycle_tick: u32,
    /// Revolutions per minute; `None` while the decoder is not synchronized.
    pub rpm: Option<u32>,
    /// Crank angle in thousandths of a degree; `None` while the decoder is
    /// not synchronized.
    pub phase: Option<u32>,
    pub injection: InjectionInfo,
}

impl InjectionInfo {
    /// The flow rate has been set to a usable value.
    pub open spec fn initialized(&self) -> bool {
        self.fuel_flow_rate > 0
    }

    /// Tells whether the flow rate has been set.
    pub fn is_initialized(&self) -> (ready: bool)
        ensures
            ready == self.initialized(),
    {
        self.fuel_flow_rate > 0
    }
}

impl EngineStatus {
    /// The tick count stays below the number of tooth positions, and speed
    /// and phase are known together or not at all.
    pub open spec fn wf(&self, engine: &Engine) -> bool {
        &&& self.cycle_tick < engine.ckp_tooth_count
        &&& (self.rpm is Some <==> self.phase is Some)
        &&& self.phase matches Some(angle) ==> angle < 360_000
    }
}

/// The status at power-up: nothing counted, speed and phase unknown, flow
/// rate unset.
pub open spec fn power_up_status() -> EngineStatus {
    EngineStatus {
        cycle_tick: 0,
        rpm: None,
        phase: None,
        injection: InjectionInfo { fuel_flow_rate: 0, pulse_width: 0 },
    }
}

/// The status at power-up.
pub fn get_default_engine_status() -> (status: EngineStatus)
    ensures
        status == power_up_status(),
{
    EngineStatus {
        cycle_tick: 0,
        rpm: None,
        phase: None,
        injection: InjectionInfo { fuel_flow_rate: 0, pulse_width: 0 },
    }
}

} // verus!
