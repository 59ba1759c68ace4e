//! Verified core of the telemon hardware telemetry exporter.

pub mod text;
pub mod config;
pub mod linux;
pub mod game;
pub mod bytes;
pub mod gpu;
pub mod temperature;
pub mod metrics;
pub mod windows;
pub mod system;
pub mod macos;
pub mod fake;
