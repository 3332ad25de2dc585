//! Verified core of a Tennessee Eastman process digital twin: plant sizing,
//! variable metadata, the controller layer and the decisions of the
//! simulation loop. The floating-point plant model itself lives outside.

pub mod params;
pub mod metadata;
pub mod controllers;
pub mod runtime;
pub mod csv;
pub mod state_file;
pub mod snapshot;
pub mod sensor;
pub mod config;
pub mod signals;
