//! Tracking of a versioned hierarchical state across two generations:
//! a map type with distinct string keys, the snapshot model, the diff
//! between two generations, and the rotation of generations per cycle.

pub mod keyed_map;
pub mod model;
pub mod diff;
pub mod tracking;
pub mod laws;
