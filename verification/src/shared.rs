//! The shared engine state behind its guard.
//!
//! Decoder and status form one item.  It is reached only through the
//! functions here, and each of them first asks the scheduling core whether
//! the running task is inside the resource that guards the item.  Every
//! change is prepared on a copy and put in place as a whole, so tick, speed
//! and angle of the status agree with the decoder in every state that any
//! task can observe.

use crate::config::Engine;
use crate::config::InjectorConfig;
use crate::decoder::event_of;
use crate::decoder::initial;
use crate::decoder::step;
use crate::decoder::CrankDecoder;
use crate::decoder::SyncModel;
use crate::injectors::base_flow_rate;
use crate::injectors::set_injector_flow;
use crate::injectors::FlowError;
use crate::sched_model::SchedError;
use crate::scheduler::Scheduler;
use crate::status::get_default_engine_status;
use crate::status::power_up_status;
use crate::status::EngineStatus;
use crate::tasks::ckp_trigger;
use crate::tasks::marker_for;
use crate::tasks::status_matches;
use crate::tasks::CkpActions;
use crate::timing::calculate_time_isr;
use crate::timing::pulse_outcome;
use crate::timing::recorded_width;
use crate::timing::Corrections;
use crate::timing::InjectionPulse;
use crate::timing::PulseLimits;
use crate::injectors::InjectionError;
use vstd::prelude::*;

verus! {

/// Decoder and status of one engine, guarded by one resource.
pub struct SharedEngine {
    resource: usize,
    decoder: CrankDecoder,
    status: EngineStatus,
}

impl SharedEngine {
    /// The resource that guards the item.
    pub closed spec fn resource(&self) -> usize {
        self.resource
    }

    /// The wheel that is decoded.
    pub closed spec fn engine(&self) -> Engine {
        self.decoder.engine()
    }

    /// The state of the decoder.
    pub closed spec fn sync(&self) -> SyncModel {
        self.decoder@
    }

    /// The status.
    pub closed spec fn status(&self) -> EngineStatus {
        self.status
    }

    #[verifier::type_invariant]
    spec fn consistent(&self) -> bool {
        &&& status_matches(self.status, self.decoder.engine(), self.decoder@)
        &&& self.status.wf(&self.decoder.engine())
    }

    /// The item at power-up, guarded by `resource`; `None` where the wheel
    /// cannot be decoded.
    pub fn new(engine: Engine, resource: usize) -> (shared: Option<SharedEngine>)
        ensures
            shared is Some <==> engine.wf(),
            shared matches Some(s) ==> {
                &&& s.resource() == resource
                &&& s.engine() == engine
                &&& s.sync() == initial()
                &&& s.status() == power_up_status()
            },
    {
        match CrankDecoder::new(engine) {
            Some(decoder) => {
                let status = get_default_engine_status();
                Some(SharedEngine { resource, decoder, status })
            },
            None => None,
        }
    }

    /// A copy of the status, for a task that is inside the guarding
    /// resource.  Tick, speed and angle of the copy are those of one and the
    /// same decoder state.
    pub fn snapshot(&self, core: &Scheduler) -> (result: Result<EngineStatus, SchedError>)
        requires
            core.wf(),
        ensures
            status_matches(self.status(), self.engine(), self.sync()),
            self.status().wf(&self.engine()),
            result == (if core@.running_holds(self.resource()) {
                Ok::<EngineStatus, SchedError>(self.status())
            } else {
                Err::<EngineStatus, SchedError>(SchedError::NotInside)
            }),
    {
        proof {
            use_type_invariant(self);
        }
        if core.running_holds(self.resource) {
            Ok(self.status)
        } else {
            Err(SchedError::NotInside)
        }
    }

    /// Handles one edge of the crank sensor for a task that is inside the
    /// guarding resource: the decoder moves on, and tick, speed and angle
    /// follow it together.  For any other task nothing changes.
    pub fn crank_edge(&mut self, core: &Scheduler, timestamp: u64) -> (result: Result<
        CkpActions,
        SchedError,
    >)
        requires
            core.wf(),
        ensures
            final(self).resource() == old(self).resource(),
            final(self).engine() == old(self).engine(),
            status_matches(final(self).status(), final(self).engine(), final(self).sync()),
            final(self).status().injection == old(self).status().injection,
            if core@.running_holds(old(self).resource()) {
                &&& final(self).sync() == step(old(self).engine(), old(self).sync(), timestamp as int)
                &&& result matches Ok(actions)
                &&& actions.event == event_of(old(self).sync().phase, final(self).sync())
                &&& actions.marker_us == marker_for(actions.event)
            } else {
                &&& final(self).sync() == old(self).sync()
                &&& final(self).status() == old(self).status()
                &&& result == Err::<CkpActions, SchedError>(SchedError::NotInside)
            },
    {
        proof {
            use_type_invariant(&*self);
        }
        if !core.running_holds(self.resource) {
            return Err(SchedError::NotInside);
        }
        let mut decoder = self.decoder;
        let mut status = self.status;
        let actions = ckp_trigger(&mut decoder, &mut status, timestamp);
        *self = SharedEngine { resource: self.resource, decoder, status };
        Ok(actions)
    }

    /// Sets the fuel flow rate from a configuration, for a task that is
    /// inside the guarding resource.  Decoder, tick, speed and angle stay as
    /// they are.
    pub fn load_flow(&mut self, core: &Scheduler, config: &InjectorConfig) -> (result: Result<
        Result<(), FlowError>,
        SchedError,
    >)
        requires
            core.wf(),
        ensures
            final(self).resource() == old(self).resource(),
            final(self).engine() == old(self).engine(),
            final(self).sync() == old(self).sync(),
            final(self).status().cycle_tick == old(self).status().cycle_tick,
            final(self).status().rpm == old(self).status().rpm,
            final(self).status().phase == old(self).status().phase,
            final(self).status().injection.pulse_width == old(self).status().injection.pulse_width,
            if core@.running_holds(old(self).resource()) {
                &&& result matches Ok(outcome)
                &&& outcome is Ok <==> 0 < base_flow_rate(*config) <= u64::MAX
                &&& final(self).status().injection.fuel_flow_rate == (if outcome is Ok {
                    base_flow_rate(*config) as u64
                } else {
                    0
                })
            } else {
                &&& final(self).status() == old(self).status()
                &&& result == Err::<Result<(), FlowError>, SchedError>(SchedError::NotInside)
            },
    {
        proof {
            use_type_invariant(&*self);
        }
        if !core.running_holds(self.resource) {
            return Err(SchedError::NotInside);
        }
        let mut status = self.status;
        let outcome = set_injector_flow(&mut status.injection, config);
        *self = SharedEngine { resource: self.resource, decoder: self.decoder, status };
        Ok(outcome)
    }

    /// Computes the injector pulse for a requested fuel mass and records its
    /// width, for a task that is inside the guarding resource.  Decoder,
    /// tick, speed, angle and flow rate stay as they are.
    pub fn compute_pulse(
        &mut self,
        core: &Scheduler,
        fuel: u32,
        divisor: u32,
        corrections: &Corrections,
        limits: &PulseLimits,
    ) -> (result: Result<Result<InjectionPulse, InjectionError>, SchedError>)
        requires
            core.wf(),
        ensures
            final(self).resource() == old(self).resource(),
            final(self).engine() == old(self).engine(),
            final(self).sync() == old(self).sync(),
            final(self).status().cycle_tick == old(self).status().cycle_tick,
            final(self).status().rpm == old(self).status().rpm,
            final(self).status().phase == old(self).status().phase,
            final(self).status().injection.fuel_flow_rate
                == old(self).status().injection.fuel_flow_rate,
            if core@.running_holds(old(self).resource()) {
                &&& result matches Ok(outcome)
                &&& outcome == pulse_outcome(
                    old(self).status().injection.fuel_flow_rate,
                    fuel,
                    divisor,
                    *corrections,
                    *limits,
                )
                &&& final(self).status().injection.pulse_width == recorded_width(outcome)
            } else {
                &&& final(self).status() == old(self).status()
                &&& result == Err::<Result<InjectionPulse, InjectionError>, SchedError>(
                    SchedError::NotInside,
                )
            },
    {
        proof {
            use_type_invariant(&*self);
        }
        if !core.running_holds(self.resource) {
            return Err(SchedError::NotInside);
        }
        let mut status = self.status;
        let outcome = calculate_time_isr(&mut status.injection, fuel, divisor, corrections, limits);
        *self = SharedEngine { resource: self.resource, decoder: self.decoder, status };
        Ok(outcome)
    }
}

} // verus!
