//! Engine-synchronisation and injection-timing core of an electronic
//! engine-control unit.
//!
//! * [`clock`] and [`decoder`] turn the edges of the crank sensor into a
//!   tooth index and a synchronization phase; [`sync_laws`] holds what is
//!   proved of the decoder.
//! * [`estimator`] derives engine speed and crank angle.
//! * [`injectors`] and [`timing`] turn a requested fuel mass into an
//!   injector pulse; [`fixed`] is the arithmetic they share.
//! * [`sched_model`] and [`scheduler`] are the priority-ceiling discipline
//!   that guards the shared state, and [`shared`] is that state behind its
//!   guard.
//! * [`tasks`] holds what the tasks of the unit decide; [`sensors`],
//!   [`command_buffer`], [`config`] and [`status`] hold their data.

pub mod clock;
pub mod command_buffer;
pub mod config;
pub mod decoder;
pub mod estimator;
pub mod fixed;
pub mod injectors;
pub mod sched_model;
pub mod scheduler;
pub mod sensors;
pub mod shared;
pub mod status;
pub mod sync_laws;
pub mod tasks;
pub mod timing;
