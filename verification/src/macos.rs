pub mod exact_temperature_experimental;
pub mod macmon;
pub mod thermal_provider;
pub mod thermal_state;
