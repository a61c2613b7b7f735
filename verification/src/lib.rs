//! A task-orchestration engine for batch data acquisition.
//!
//! A loaded configuration describes named steps. Each step expands into a
//! set of concrete work items by taking the dependent Cartesian product of
//! one or more value generators, materializes one task per combination by
//! resolving string templates against the accumulated bindings, and runs
//! the tasks under a per-step concurrency bound with cooperative
//! pause/resume/stop control.

pub mod controller;
pub mod ctx;
pub mod fsio;
pub mod iters;
pub mod jsonio;
pub mod models;
pub mod odometer;
pub mod scraping;
pub mod tasks;
pub mod text;
pub mod utils;

use vstd::prelude::*;

verus! {

/// Run state of a step: dispatch may proceed.
pub const STEP_RUNNING: u8 = 0;

/// Run state of a step: dispatch is parked until the state changes.
pub const STEP_PAUSED: u8 = 1;

/// Run state of a step: no further dispatch; in-flight work still finishes.
pub const STEP_STOPPED: u8 = 2;

} // verus!
