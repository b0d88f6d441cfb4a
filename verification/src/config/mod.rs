//! Configuration: presets, legacy migration and the settings model.
pub mod presets;
pub mod providers;
pub mod store;
