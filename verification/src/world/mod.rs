//! The world that a generator hands out: tiles and environmental conditions.

pub mod environmental_conditions;
pub mod tile;
