//! Engine configuration: trigger-wheel geometry and injector data.
//!
//! A configuration is loaded once at start-up and stays fixed while the
//! engine runs.  Fractional quantities are fixed-point values in thousandths.

use vstd::prelude::*;

verus! {

/// Largest relative deviation, in percent, at which the bands around one and
/// around two reference intervals still do not meet.
pub const MAX_TOLERANCE_PERCENT: u8 = 33;

/// How injection events are distributed over the cylinders.
#[derive(Clone, Copy, Debug, PartialEq, Eq, Structural)]
pub enum InjectionMode {
    Sequential,
    Batch,
    SemiSequential,
}

/// Mechanical description of the engine and its trigger wheel.
#[derive(Clone, Copy, Debug, PartialEq, Eq, Structural)]
pub struct Engine {
    pub cylinder_count: u8,
    /// Tooth positions on the trigger wheel, the missing ones included.
    pub ckp_tooth_count: u32,
    /// Tooth positions left empty to mark the reference gap.
    pub ckp_missing_tooth: u32,
    /// Accepted relative deviation of a tooth interval, in percent.
    pub ckp_tolerance: u8,
    pub injection_mode: InjectionMode,
}

/// Data of the injectors and of the fuel they deliver.
#[derive(Clone, Copy, Debug, PartialEq, Eq, Structural)]
pub struct InjectorConfig {
    /// Rated flow of one injector, thousandths of cc/min.
    pub flow_cc_min: u32,
    pub injector_count: u8,
    /// Rail pressure relative to the rating pressure, in thousandths.
    pub fuel_pressure: u32,
    /// Fuel density, thousandths of g/cc.
    pub fuel_density: u32,
    /// Opening delay of an injector, microseconds.
    pub on_time: u32,
    /// Closing delay of an injector, microseconds.
    pub off_time: u32,
}

/// The complete configuration of one engine.
#[derive(Clone, Copy, Debug, PartialEq, Eq, Structural)]
pub struct EngineConfig {
    pub engine: Engine,
    pub injection: InjectorConfig,
}

impl Engine {
    /// A wheel has more tooth positions than missing teeth, and the
    /// tolerance keeps a normal interval apart from a gap.
    pub open spec fn wf(&self) -> bool {
        &&& self.ckp_tooth_count > self.ckp_missing_tooth
        &&& self.ckp_tolerance <= MAX_TOLERANCE_PERCENT
    }

    /// Number of teeth that are physically present on the wheel.
    pub open spec fn present_teeth(&self) -> int {
        self.ckp_tooth_count - self.ckp_missing_tooth
    }

    /// Tells whether the geometry can be decoded.
    pub fn is_valid(&self) -> (valid: bool)
        ensures
            valid == self.wf(),
    {
        self.ckp_tooth_count > self.ckp_missing_tooth && self.ckp_tolerance
            <= MAX_TOLERANCE_PERCENT
    }
}

impl EngineConfig {
    pub open spec fn wf(&self) -> bool {
        self.engine.wf()
    }

    /// Tells whether the configuration can be used to run the engine.
    pub fn is_valid(&self) -> (valid: bool)
        ensures
            valid == self.wf(),
    {
        self.engine.is_valid()
    }
}

/// The configuration used until one is loaded from the calibration store:
/// a four-cylinder engine with a sixty-minus-one wheel.
pub fn get_default_efi_cfg() -> (cfg: EngineConfig)
    ensures
        cfg.wf(),
        cfg.engine.cylinder_count == 4,
        cfg.engine.ckp_tooth_count == 60,
        cfg.engine.ckp_missing_tooth == 1,
        cfg.engine.ckp_tolerance == 25,
        cfg.engine.injection_mode == InjectionMode::SemiSequential,
        cfg.injection.flow_cc_min == 110_000,
        cfg.injection.injector_count == 4,
        cfg.injection.fuel_pressure == 1000,
        cfg.injection.fuel_density == 726,
        cfg.injection.on_time == 750,
        cfg.injection.off_time == 250,
{
    EngineConfig {
        engine: Engine {
            cylinder_count: 4,
            ckp_tooth_count: 60,
            ckp_missing_tooth: 1,
            ckp_tolerance: 25,
            injection_mode: InjectionMode::SemiSequential,
        },
        injection: InjectorConfig {
            flow_cc_min: 110_000,
            injector_count: 4,
            fuel_pressure: 1000,
            fuel_density: 726,
            on_time: 750,
            off_time: 250,
        },
    }
}

} // verus!
