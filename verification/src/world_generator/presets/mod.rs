//! Ready-made options.

pub mod content_presets;
pub mod environmental_presets;
pub mod tile_type_presets;
