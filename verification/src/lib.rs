//! An interactive, multi-worker dataflow execution server core.
//!
//! The crate verifies the per-worker command loop together with the
//! peek-sequencing and peek-retirement protocol: the state machine that
//! turns a stream of external commands plus an internal time signal into
//! correctly timed answers. The surrounding execution engine, the dataflow
//! builder, the command transport and the result sinks are external
//! collaborators; their effects enter the state machine as events with
//! explicit contracts.

pub mod repr;
pub mod registry;
pub mod expr;
pub mod dataflow;
pub mod trace;
pub mod worker;
pub mod system;
pub mod laws;
