//! Deterministic, tick-based core of a multi-agent space combat simulation.
//!
//! Every quantity is a fixed-point integer with nine decimal places: the
//! physics engine, the agent runtime and the scenario live outside the
//! library and exchange plain values with it.

pub mod units;
pub mod index_set;
pub mod ship;
pub mod bullet;
pub mod script;
pub mod events;
pub mod collision;
pub mod model;
pub mod world;
pub mod fingerprint;
pub mod agents;
pub mod scenario;
pub mod simulation;
pub mod snapshot;
pub mod laws;
pub mod version;
