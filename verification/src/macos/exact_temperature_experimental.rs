//! The experimental exact-temperature collector for macOS, which is not
//! implemented: it only reports itself unsupported.

use vstd::prelude::*;

use crate::config::MacosExactTemperatureExperimentalConfig;
use crate::text::{chars_of, string_of};

verus! {

pub const COLLECTOR_NAME: &'static str = "macos_exact_temperature_experimental";

#[derive(Debug, Clone)]
pub struct MacosExactTemperatureExperimentalCollector {
    pub config: MacosExactTemperatureExperimentalConfig,
    pub errors_total: u64,
}

impl MacosExactTemperatureExperimentalCollector {
    pub fn new(config: MacosExactTemperatureExperimentalConfig) -> (r: Self)
        ensures
            r.config == config,
            r.errors_total == 0,
    {
        MacosExactTemperatureExperimentalCollector { config, errors_total: 0 }
    }

    /// The discovery line.
    pub fn discover_summary(config: &MacosExactTemperatureExperimentalConfig) -> (r: String)
        ensures
            r@ == (if config.enabled {
                "not implemented"@
            } else {
                "disabled"@
            }),
    {
        if config.enabled {
            string_of(&chars_of("not implemented"))
        } else {
            string_of(&chars_of("disabled"))
        }
    }

    /// What a collection reports: supported is false, and this message.
    pub fn unsupported_message(&self) -> (r: String)
        ensures
            r@ == "macos_exact_temperature_experimental is not implemented"@,
    {
        string_of(&chars_of("macos_exact_temperature_experimental is not implemented"))
    }
}

} // verus!
