//! The names of the metrics the exporter publishes. Several names are
//! shared: the labels tell the series apart.

use vstd::prelude::*;

verus! {

pub const BUILD_INFO: &'static str = "exporter_build_info";
pub const DEVICE_INFO: &'static str = "device_info";
pub const REQUESTED_SCRAPE_INTERVAL_SECONDS: &'static str = "exporter_requested_scrape_interval_seconds";
pub const COLLECTOR_UP: &'static str = "exporter_collector_up";
pub const COLLECTOR_SUPPORTED: &'static str = "exporter_collector_supported";
pub const COLLECTOR_ERRORS_TOTAL: &'static str = "exporter_collector_errors_total";
pub const COLLECTOR_LAST_SUCCESS_TIMESTAMP_SECONDS: &'static str = "exporter_collector_last_success_timestamp_seconds";
pub const COLLECTOR_SAMPLES: &'static str = "exporter_collector_samples";
pub const UPTIME_SECONDS: &'static str = "system_uptime_seconds";
pub const CPU_USAGE_RATIO: &'static str = "system_cpu_usage_ratio";
pub const SYSTEM_CPU_COUNT: &'static str = "system_cpu_count";
pub const SYSTEM_THERMAL_STATE: &'static str = "system_thermal_state";
pub const SYSTEM_THERMAL_STATE_VALUE: &'static str = "system_thermal_state_value";
pub const SYSTEM_OS_INFO: &'static str = "system_os_info";
pub const MEMORY_TOTAL_BYTES: &'static str = "system_memory_bytes";
pub const MEMORY_AVAILABLE_BYTES: &'static str = "system_memory_bytes";
pub const MEMORY_USED_BYTES: &'static str = "system_memory_bytes";
pub const SYSTEM_SWAP_BYTES: &'static str = "system_swap_bytes";
pub const FILESYSTEM_SIZE_BYTES: &'static str = "filesystem_bytes";
pub const FILESYSTEM_FREE_BYTES: &'static str = "filesystem_bytes";
pub const FILESYSTEM_AVAILABLE_BYTES: &'static str = "filesystem_bytes";
pub const NETWORK_RECEIVE_BYTES_TOTAL: &'static str = "network_bytes_total";
pub const NETWORK_TRANSMIT_BYTES_TOTAL: &'static str = "network_bytes_total";
pub const WINDOWS_OS_INFO: &'static str = SYSTEM_OS_INFO;
pub const CPU_INFO: &'static str = "hardware_cpu_info";
pub const COMPUTER_SYSTEM_INFO: &'static str = "system_computer_info";
pub const HWMON_CHIPS_DISCOVERED: &'static str = "hardware_hwmon_chips_discovered";
pub const HWMON_TEMPERATURE_INPUTS_DISCOVERED: &'static str = "hardware_hwmon_temperature_inputs_discovered";
pub const TEMPERATURE_CELSIUS: &'static str = "hardware_temperature_celsius";
pub const TEMPERATURE_LIMIT_CELSIUS: &'static str = "hardware_temperature_limit_celsius";
pub const HARDWARE_VOLTAGE_VOLTS: &'static str = "hardware_voltage_volts";
pub const HARDWARE_CURRENT_AMPERES: &'static str = "hardware_current_amperes";
pub const HARDWARE_POWER_WATTS: &'static str = "hardware_power_watts";
pub const HARDWARE_POWER_LIMIT_WATTS: &'static str = "hardware_power_limit_watts";
pub const HARDWARE_CLOCK_HERTZ: &'static str = "hardware_clock_hertz";
pub const HARDWARE_UTILIZATION_RATIO: &'static str = "hardware_utilization_ratio";
pub const HARDWARE_MEMORY_BYTES: &'static str = "hardware_memory_bytes";
pub const HARDWARE_SENSOR_INFO: &'static str = "hardware_sensor_info";
pub const HARDWARE_DEVICE_INFO: &'static str = "hardware_device_info";
pub const HARDWARE_CPU_CLUSTER_CORES: &'static str = "hardware_cpu_cluster_cores";
pub const HARDWARE_GPU_CORES: &'static str = "hardware_gpu_cores";
pub const HARDWARE_CLOCK_AVAILABLE_HERTZ: &'static str = "hardware_clock_available_hertz";
pub const STORAGE_DEVICE_INFO: &'static str = HARDWARE_DEVICE_INFO;
pub const STORAGE_NAMESPACE_CAPACITY_BYTES: &'static str = "hardware_storage_capacity_bytes";
pub const GPU_INFO: &'static str = HARDWARE_DEVICE_INFO;
pub const GPU_UTILIZATION_RATIO: &'static str = "hardware_utilization_ratio";
pub const GPU_MEMORY_TOTAL_BYTES: &'static str = "hardware_memory_bytes";
pub const GPU_MEMORY_USED_BYTES: &'static str = "hardware_memory_bytes";
pub const GPU_MEMORY_FREE_BYTES: &'static str = "hardware_memory_bytes";
pub const GPU_POWER_USAGE_WATTS: &'static str = "hardware_power_watts";
pub const GPU_POWER_LIMIT_WATTS: &'static str = "hardware_power_limit_watts";
pub const GPU_CLOCK_HERTZ: &'static str = "hardware_clock_hertz";
pub const GPU_PERFORMANCE_STATE: &'static str = "hardware_state";
pub const FAN_SPEED_RATIO: &'static str = "hardware_fan_speed_ratio";
pub const HARDWARE_FAN_SPEED_RPM: &'static str = "hardware_fan_speed_rpm";
pub const EXPORTER_MACOS_MACMON_SNAPSHOT_AGE_SECONDS: &'static str = "exporter_macos_macmon_snapshot_age_seconds";
pub const EXPORTER_MACOS_MACMON_REINITIALIZATIONS_TOTAL: &'static str = "exporter_macos_macmon_reinitializations_total";
pub const EXPORTER_MACOS_MACMON_INVALID_SAMPLES_TOTAL: &'static str = "exporter_macos_macmon_invalid_samples_total";
pub const MACMON_CPU_TEMP_CELSIUS: &'static str = "macmon_cpu_temp_celsius";
pub const MACMON_GPU_TEMP_CELSIUS: &'static str = "macmon_gpu_temp_celsius";
pub const MACMON_CPU_POWER_WATTS: &'static str = "macmon_cpu_power_watts";
pub const MACMON_GPU_POWER_WATTS: &'static str = "macmon_gpu_power_watts";
pub const MACMON_ANE_POWER_WATTS: &'static str = "macmon_ane_power_watts";
pub const MACMON_ALL_POWER_WATTS: &'static str = "macmon_all_power_watts";
pub const MACMON_SYS_POWER_WATTS: &'static str = "macmon_sys_power_watts";
pub const MACMON_RAM_POWER_WATTS: &'static str = "macmon_ram_power_watts";
pub const MACMON_GPU_RAM_POWER_WATTS: &'static str = "macmon_gpu_ram_power_watts";
pub const MACMON_CPU_USAGE_RATIO: &'static str = "macmon_cpu_usage_ratio";
pub const MACMON_ECPU_USAGE_RATIO: &'static str = "macmon_ecpu_usage_ratio";
pub const MACMON_PCPU_USAGE_RATIO: &'static str = "macmon_pcpu_usage_ratio";
pub const MACMON_GPU_USAGE_RATIO: &'static str = "macmon_gpu_usage_ratio";
pub const MACMON_ECPU_FREQUENCY_MHZ: &'static str = "macmon_ecpu_frequency_mhz";
pub const MACMON_PCPU_FREQUENCY_MHZ: &'static str = "macmon_pcpu_frequency_mhz";
pub const MACMON_GPU_FREQUENCY_MHZ: &'static str = "macmon_gpu_frequency_mhz";
pub const MACMON_MEMORY_RAM_USED_BYTES: &'static str = "macmon_memory_ram_used_bytes";
pub const MACMON_MEMORY_RAM_TOTAL_BYTES: &'static str = "macmon_memory_ram_total_bytes";
pub const MACMON_MEMORY_SWAP_USED_BYTES: &'static str = "macmon_memory_swap_used_bytes";
pub const MACMON_MEMORY_SWAP_TOTAL_BYTES: &'static str = "macmon_memory_swap_total_bytes";

/// The state of a device as a one-hot gauge, such as a GPU's performance
/// level or throttle reason.
pub const HARDWARE_STATE: &'static str = "hardware_state";
pub const HARDWARE_BATTERY_CHARGE_RATIO: &'static str = "hardware_battery_charge_ratio";
pub const HARDWARE_BATTERY_VOLTAGE_VOLTS: &'static str = "hardware_battery_voltage_volts";
pub const HARDWARE_BATTERY_CURRENT_AMPERES: &'static str = "hardware_battery_current_amperes";
pub const HARDWARE_BATTERY_POWER_WATTS: &'static str = "hardware_battery_power_watts";
pub const CPU_FREQUENCY_MHZ: &'static str = "system_cpu_frequency_mhz";

} // verus!
