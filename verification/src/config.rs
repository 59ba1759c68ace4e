//! Configuration records of the exporter and the registry, with their
//! defaults and the checks made on a loaded configuration.
//!
//! Paths are held as strings; reading and deserialising a file is done by
//! the caller, which hands the records to the checks below.

use vstd::prelude::*;

use crate::text::{
    chars_eq, chars_of, concat, decimal, decimal_chars, starts_with, starts_with_chars, string_of,
    trim, trim_chars, trim_end, trim_start,
};

verus! {

broadcast use vstd::string::group_string_axioms;

#[derive(Debug, Clone)]
pub struct ServerConfig {
    pub listen: String,
    pub metrics_path: String,
    pub static_metrics_path: String,
    pub fps_metrics_path: String,
}

impl Default for ServerConfig {
    fn default() -> (r: Self)
        ensures
            r.listen@ == "127.0.0.1:9185"@,
            r.metrics_path@ == "/metrics"@,
            r.static_metrics_path@ == "/metrics/static"@,
            r.fps_metrics_path@ == "/fps"@,
    {
        ServerConfig {
            listen: "127.0.0.1:9185".to_string(),
            metrics_path: "/metrics".to_string(),
            static_metrics_path: "/metrics/static".to_string(),
            fps_metrics_path: "/fps".to_string(),
        }
    }
}

#[derive(Debug, Clone)]
pub struct IdentityConfig {
    pub user_name: String,
    pub device_name: String,
    pub machine_uuid: String,
    pub machine_uuid_file: String,
}

/// The device name used when the environment names none.
pub open spec fn device_name_choice(hostname: Option<Seq<char>>, computername: Option<Seq<char>>) -> Seq<
    char,
> {
    let chosen = match hostname {
        Some(h) => Some(h),
        None => computername,
    };
    match chosen {
        Some(c) => if trim(c).len() > 0 {
            c
        } else {
            "unknown-device"@
        },
        None => "unknown-device"@,
    }
}

pub open spec fn opt_view(o: Option<String>) -> Option<Seq<char>> {
    match o {
        Some(s) => Some(s@),
        None => None,
    }
}

/// The default device name from the values of `HOSTNAME` and `COMPUTERNAME`:
/// the first that is set, unless it is blank; else `"unknown-device"`.
pub fn default_device_name(hostname: Option<String>, computername: Option<String>) -> (r: String)
    ensures
        r@ == device_name_choice(opt_view(hostname), opt_view(computername)),
{
    let chosen = match hostname {
        Some(h) => Some(h),
        None => computername,
    };
    match chosen {
        Some(c) => {
            let t = trim_chars(&chars_of(c.as_str()));
            if t.len() > 0 {
                c
            } else {
                "unknown-device".to_string()
            }
        },
        None => "unknown-device".to_string(),
    }
}

impl IdentityConfig {
    /// The default identity, for the given device name.
    pub fn default_with_device_name(device_name: String) -> (r: Self)
        ensures
            r.user_name@ == Seq::<char>::empty(),
            r.device_name@ == device_name@,
            r.machine_uuid@ == Seq::<char>::empty(),
            r.machine_uuid_file@ == Seq::<char>::empty(),
    {
        IdentityConfig {
            user_name: String::new(),
            device_name,
            machine_uuid: String::new(),
            machine_uuid_file: String::new(),
        }
    }
}

#[derive(Debug, Clone)]
pub struct RegistrationConfig {
    pub enabled: bool,
    pub registry_addr: String,
    pub enrollment_token: String,
    pub device_id_file: String,
    pub heartbeat_interval_seconds: u64,
    pub scrape_port: u16,
    pub advertised_addr: String,
}

impl Default for RegistrationConfig {
    fn default() -> (r: Self)
        ensures
            !r.enabled,
            r.registry_addr@ == Seq::<char>::empty(),
            r.enrollment_token@ == Seq::<char>::empty(),
            r.device_id_file@ == Seq::<char>::empty(),
            r.heartbeat_interval_seconds == 30,
            r.scrape_port == 9185,
            r.advertised_addr@ == Seq::<char>::empty(),
    {
        RegistrationConfig {
            enabled: false,
            registry_addr: String::new(),
            enrollment_token: String::new(),
            device_id_file: String::new(),
            heartbeat_interval_seconds: 30,
            scrape_port: 9185,
            advertised_addr: String::new(),
        }
    }
}

#[derive(Debug, Clone)]
pub struct RegistryConfig {
    pub listen: String,
    pub storage_path: String,
    pub enrollment_token: String,
    pub device_stale_after_seconds: u64,
}

impl Default for RegistryConfig {
    fn default() -> (r: Self)
        ensures
            r.listen@ == "0.0.0.0:9186"@,
            r.storage_path@ == "/data/devices.json"@,
            r.enrollment_token@ == "change-me"@,
            r.device_stale_after_seconds == 120,
    {
        RegistryConfig {
            listen: "0.0.0.0:9186".to_string(),
            storage_path: "/data/devices.json".to_string(),
            enrollment_token: "change-me".to_string(),
            device_stale_after_seconds: 120,
        }
    }
}

#[derive(Debug, Clone)]
pub struct LoggingConfig {
    pub level: String,
}

impl Default for LoggingConfig {
    fn default() -> (r: Self)
        ensures
            r.level@ == "info"@,
    {
        LoggingConfig { level: "info".to_string() }
    }
}

#[derive(Debug, Clone)]
pub struct RegistryAppConfig {
    pub registry: RegistryConfig,
    pub logging: LoggingConfig,
}

impl Default for RegistryAppConfig {
    fn default() -> (r: Self)
        ensures
            r.registry.listen@ == "0.0.0.0:9186"@,
            r.registry.storage_path@ == "/data/devices.json"@,
            r.registry.enrollment_token@ == "change-me"@,
            r.registry.device_stale_after_seconds == 120,
            r.logging.level@ == "info"@,
    {
        RegistryAppConfig { registry: RegistryConfig::default(), logging: LoggingConfig::default() }
    }
}

#[derive(Debug, Clone)]
pub struct CollectionConfig {
    pub scrape_cache_stale_after_seconds: u64,
    pub system_interval_seconds: u64,
    pub macos_thermal_state_interval_seconds: u64,
    pub temperature_interval_seconds: u64,
    pub sensor_rescan_interval_seconds: u64,
    pub gpu_interval_seconds: u64,
    pub windows_baseline_interval_seconds: u64,
    pub windows_inventory_interval_seconds: u64,
    pub static_info_interval_seconds: u64,
}

impl Default for CollectionConfig {
    fn default() -> (r: Self)
        ensures
            r.scrape_cache_stale_after_seconds == 60,
            r.system_interval_seconds == 15,
            r.macos_thermal_state_interval_seconds == 15,
            r.temperature_interval_seconds == 15,
            r.sensor_rescan_interval_seconds == 300,
            r.gpu_interval_seconds == 15,
            r.windows_baseline_interval_seconds == 15,
            r.windows_inventory_interval_seconds == 300,
            r.static_info_interval_seconds == 300,
    {
        CollectionConfig {
            scrape_cache_stale_after_seconds: 60,
            system_interval_seconds: 15,
            macos_thermal_state_interval_seconds: 15,
            temperature_interval_seconds: 15,
            sensor_rescan_interval_seconds: 300,
            gpu_interval_seconds: 15,
            windows_baseline_interval_seconds: 15,
            windows_inventory_interval_seconds: 300,
            static_info_interval_seconds: 300,
        }
    }
}

#[derive(Debug, Clone)]
pub struct AdaptiveSamplingLevelsConfig {
    pub normal_seconds: u64,
    pub warm_seconds: u64,
    pub hot_seconds: u64,
    pub critical_seconds: u64,
}

impl Default for AdaptiveSamplingLevelsConfig {
    fn default() -> (r: Self)
        ensures
            r.normal_seconds == 15,
            r.warm_seconds == 10,
            r.hot_seconds == 5,
            r.critical_seconds == 1,
    {
        AdaptiveSamplingLevelsConfig {
            normal_seconds: 15,
            warm_seconds: 10,
            hot_seconds: 5,
            critical_seconds: 1,
        }
    }
}

#[derive(Debug, Clone)]
pub struct DiagnosticsConfig {
    pub enabled: bool,
    pub scrape_gap_threshold_seconds: u64,
    pub scheduler_lag_threshold_seconds: u64,
    pub log_scrape_gaps: bool,
    pub log_scheduler_lag: bool,
    pub log_scrape_interval_changes: bool,
}

impl Default for DiagnosticsConfig {
    fn default() -> (r: Self)
        ensures
            r.enabled,
            r.scrape_gap_threshold_seconds == 30,
            r.scheduler_lag_threshold_seconds == 5,
            r.log_scrape_gaps,
            r.log_scheduler_lag,
            r.log_scrape_interval_changes,
    {
        DiagnosticsConfig {
            enabled: true,
            scrape_gap_threshold_seconds: 30,
            scheduler_lag_threshold_seconds: 5,
            log_scrape_gaps: true,
            log_scheduler_lag: true,
            log_scrape_interval_changes: true,
        }
    }
}

#[derive(Debug, Clone)]
pub struct SystemConfig {
    pub enabled: bool,
    pub cpu_enabled: bool,
    pub memory_enabled: bool,
    pub uptime_enabled: bool,
}

impl Default for SystemConfig {
    fn default() -> (r: Self)
        ensures
            r.enabled && r.cpu_enabled && r.memory_enabled && r.uptime_enabled,
    {
        SystemConfig { enabled: true, cpu_enabled: true, memory_enabled: true, uptime_enabled: true }
    }
}

#[derive(Debug, Clone)]
pub struct MacosThermalStateConfig {
    pub enabled: bool,
}

impl MacosThermalStateConfig {
    /// The default, which enables the collector exactly on macOS.
    pub fn default_for_platform(is_macos: bool) -> (r: Self)
        ensures
            r.enabled == is_macos,
    {
        MacosThermalStateConfig { enabled: is_macos }
    }
}

#[derive(Debug, Clone, Default)]
pub struct MacosExactTemperatureExperimentalConfig {
    pub enabled: bool,
}

#[derive(Debug, Clone)]
pub struct LinuxHwmonConfig {
    pub enabled: bool,
    pub root: String,
    pub include_unknown_sensors: bool,
    pub nvme_enrichment_enabled: bool,
    pub expose_storage_model: bool,
    pub sensor_allowlist: Vec<String>,
    pub sensor_denylist: Vec<String>,
}

impl Default for LinuxHwmonConfig {
    fn default() -> (r: Self)
        ensures
            r.enabled,
            r.root@ == "/sys/class/hwmon"@,
            !r.include_unknown_sensors,
            r.nvme_enrichment_enabled,
            r.expose_storage_model,
            r.sensor_allowlist@.len() == 0,
            r.sensor_denylist@.len() == 0,
    {
        LinuxHwmonConfig {
            enabled: true,
            root: "/sys/class/hwmon".to_string(),
            include_unknown_sensors: false,
            nvme_enrichment_enabled: true,
            expose_storage_model: true,
            sensor_allowlist: Vec::new(),
            sensor_denylist: Vec::new(),
        }
    }
}

#[derive(Debug, Clone)]
pub struct LinuxPowerSupplyConfig {
    pub enabled: bool,
    pub root: String,
    pub derive_power_when_missing: bool,
}

impl Default for LinuxPowerSupplyConfig {
    fn default() -> (r: Self)
        ensures
            !r.enabled,
            r.root@ == "/sys/class/power_supply"@,
            r.derive_power_when_missing,
    {
        LinuxPowerSupplyConfig {
            enabled: false,
            root: "/sys/class/power_supply".to_string(),
            derive_power_when_missing: true,
        }
    }
}

#[derive(Debug, Clone)]
pub struct LinuxAmdgpuConfig {
    pub enabled: bool,
    pub root: String,
    pub include_diagnostic_only_gpu_metrics: bool,
}

impl Default for LinuxAmdgpuConfig {
    fn default() -> (r: Self)
        ensures
            !r.enabled,
            r.root@ == "/sys/class/drm"@,
            r.include_diagnostic_only_gpu_metrics,
    {
        LinuxAmdgpuConfig {
            enabled: false,
            root: "/sys/class/drm".to_string(),
            include_diagnostic_only_gpu_metrics: true,
        }
    }
}

#[derive(Debug, Clone)]
pub struct LinuxDrmConfig {
    pub enabled: bool,
    pub drm_root: String,
    pub proc_root: String,
    pub target_pid: Option<u32>,
    pub include_hwmon: bool,
    pub include_fdinfo: bool,
}

impl Default for LinuxDrmConfig {
    fn default() -> (r: Self)
        ensures
            !r.enabled,
            r.drm_root@ == "/sys/class/drm"@,
            r.proc_root@ == "/proc"@,
            r.target_pid is None,
            r.include_hwmon,
            !r.include_fdinfo,
    {
        LinuxDrmConfig {
            enabled: false,
            drm_root: "/sys/class/drm".to_string(),
            proc_root: "/proc".to_string(),
            target_pid: None,
            include_hwmon: true,
            include_fdinfo: false,
        }
    }
}

#[derive(Debug, Clone)]
pub struct SteamDeckGameStateConfig {
    pub enabled: bool,
    pub poll_interval_seconds: u64,
    pub stop_debounce_seconds: u64,
    pub xprop_path: String,
    pub display: String,
    pub auto_discover_steam_display: bool,
    pub desktop_fallback_enabled: bool,
    pub process_fallback_enabled: bool,
}

impl Default for SteamDeckGameStateConfig {
    fn default() -> (r: Self)
        ensures
            !r.enabled,
            r.poll_interval_seconds == 1,
            r.stop_debounce_seconds == 5,
            r.xprop_path@ == "xprop"@,
            r.display@ == ":0"@,
            r.auto_discover_steam_display,
            r.desktop_fallback_enabled,
            r.process_fallback_enabled,
    {
        SteamDeckGameStateConfig {
            enabled: false,
            poll_interval_seconds: 1,
            stop_debounce_seconds: 5,
            xprop_path: "xprop".to_string(),
            display: ":0".to_string(),
            auto_discover_steam_display: true,
            desktop_fallback_enabled: true,
            process_fallback_enabled: true,
        }
    }
}

#[derive(Debug, Clone, Default)]
pub struct GamescopeWaylandConfig {
    pub enabled: bool,
    pub display: String,
}

#[derive(Debug, Clone)]
pub struct MangoHudLogConfig {
    pub enabled: bool,
    pub paths: Vec<String>,
    pub auto_discover: bool,
}

impl Default for MangoHudLogConfig {
    fn default() -> (r: Self)
        ensures
            !r.enabled,
            r.paths@.len() == 0,
            r.auto_discover,
    {
        MangoHudLogConfig { enabled: false, paths: Vec::new(), auto_discover: true }
    }
}

#[derive(Debug, Clone)]
pub struct GamescopeMangoappConfig {
    pub enabled: bool,
    pub ftok_path: String,
    pub project_id: i32,
    pub legacy_failed_ftok_fallback_enabled: bool,
    pub allow_destructive_read: bool,
}

impl Default for GamescopeMangoappConfig {
    fn default() -> (r: Self)
        ensures
            !r.enabled,
            r.ftok_path@ == "mangoapp"@,
            r.project_id == 65,
            !r.legacy_failed_ftok_fallback_enabled,
            !r.allow_destructive_read,
    {
        GamescopeMangoappConfig {
            enabled: false,
            ftok_path: "mangoapp".to_string(),
            project_id: 65,
            legacy_failed_ftok_fallback_enabled: false,
            allow_destructive_read: false,
        }
    }
}

#[derive(Debug, Clone)]
pub struct SteamDeckFpsConfig {
    pub enabled: bool,
    pub windows_seconds: Vec<u64>,
    pub include_appid_label: bool,
    pub include_game_name_label: bool,
    pub max_frame_time_milliseconds: u64,
    pub poll_interval_milliseconds: u64,
    pub max_messages_per_poll: u64,
    pub source_preference: Vec<String>,
    pub gamescope_wayland: GamescopeWaylandConfig,
    pub mangohud_log: MangoHudLogConfig,
    pub gamescope_mangoapp: GamescopeMangoappConfig,
    pub steam_library_roots: Vec<String>,
}

impl Default for SteamDeckFpsConfig {
    fn default() -> (r: Self)
        ensures
            !r.enabled,
            r.windows_seconds@ == seq![1u64, 5, 60],
            r.include_appid_label,
            r.include_game_name_label,
            r.max_frame_time_milliseconds == 1000,
            r.poll_interval_milliseconds == 100,
            r.max_messages_per_poll == 512,
            r.source_preference@.len() == 3,
            r.source_preference@[0]@ == "gamescope_wayland"@,
            r.source_preference@[1]@ == "mangohud_log"@,
            r.source_preference@[2]@ == "gamescope_mangoapp"@,
            !r.gamescope_wayland.enabled,
            r.gamescope_wayland.display@ == Seq::<char>::empty(),
            !r.mangohud_log.enabled,
            r.mangohud_log.paths@.len() == 0,
            r.mangohud_log.auto_discover,
            !r.gamescope_mangoapp.enabled,
            r.gamescope_mangoapp.ftok_path@ == "mangoapp"@,
            r.gamescope_mangoapp.project_id == 65,
            !r.gamescope_mangoapp.legacy_failed_ftok_fallback_enabled,
            !r.gamescope_mangoapp.allow_destructive_read,
            r.steam_library_roots@.len() == 0,
    {
        let wayland = GamescopeWaylandConfig { enabled: false, display: String::new() };
        SteamDeckFpsConfig {
            enabled: false,
            windows_seconds: vec![1, 5, 60],
            include_appid_label: true,
            include_game_name_label: true,
            max_frame_time_milliseconds: 1000,
            poll_interval_milliseconds: 100,
            max_messages_per_poll: 512,
            source_preference: vec![
                "gamescope_wayland".to_string(),
                "mangohud_log".to_string(),
                "gamescope_mangoapp".to_string(),
            ],
            gamescope_wayland: wayland,
            mangohud_log: MangoHudLogConfig::default(),
            gamescope_mangoapp: GamescopeMangoappConfig::default(),
            steam_library_roots: Vec::new(),
        }
    }
}

#[derive(Debug, Clone)]
pub struct NvidiaNvmlConfig {
    pub enabled: bool,
    pub library_paths: Vec<String>,
    pub expose_gpu_name: bool,
    pub expose_gpu_uuid: bool,
    pub fan_speed_enabled: bool,
}

impl Default for NvidiaNvmlConfig {
    fn default() -> (r: Self)
        ensures
            r.enabled,
            r.library_paths@.len() == 0,
            r.expose_gpu_name,
            !r.expose_gpu_uuid,
            r.fan_speed_enabled,
    {
        NvidiaNvmlConfig {
            enabled: true,
            library_paths: Vec::new(),
            expose_gpu_name: true,
            expose_gpu_uuid: false,
            fan_speed_enabled: true,
        }
    }
}

#[derive(Debug, Clone)]
pub struct WindowsBaselineConfig {
    pub enabled: bool,
    pub include_removable_drives: bool,
    pub include_remote_drives: bool,
    pub network_interface_allowlist: Vec<String>,
    pub network_interface_denylist: Vec<String>,
}

impl WindowsBaselineConfig {
    /// The default, which enables the collector exactly on Windows.
    pub fn default_for_platform(is_windows: bool) -> (r: Self)
        ensures
            r.enabled == is_windows,
            !r.include_removable_drives,
            !r.include_remote_drives,
            r.network_interface_allowlist@.len() == 0,
            r.network_interface_denylist@.len() == 3,
            r.network_interface_denylist@[0]@ == "loopback"@,
            r.network_interface_denylist@[1]@ == "isatap"@,
            r.network_interface_denylist@[2]@ == "teredo"@,
    {
        WindowsBaselineConfig {
            enabled: is_windows,
            include_removable_drives: false,
            include_remote_drives: false,
            network_interface_allowlist: Vec::new(),
            network_interface_denylist: vec![
                "loopback".to_string(),
                "isatap".to_string(),
                "teredo".to_string(),
            ],
        }
    }
}

#[derive(Debug, Clone)]
pub struct WindowsInventoryConfig {
    pub enabled: bool,
}

impl WindowsInventoryConfig {
    /// The default, which enables the collector exactly on Windows.
    pub fn default_for_platform(is_windows: bool) -> (r: Self)
        ensures
            r.enabled == is_windows,
    {
        WindowsInventoryConfig { enabled: is_windows }
    }
}

#[derive(Debug, Clone)]
pub struct WindowsLhmHttpConfig {
    pub enabled: bool,
    pub url: String,
    pub timeout_ms: u64,
    pub include_unknown_sensors: bool,
    pub sensor_allowlist: Vec<String>,
    pub sensor_denylist: Vec<String>,
    pub require_provider: bool,
}

impl WindowsLhmHttpConfig {
    /// The default, which enables the collector exactly on Windows.
    pub fn default_for_platform(is_windows: bool) -> (r: Self)
        ensures
            r.enabled == is_windows,
            r.url@ == "http://127.0.0.1:8085/data.json"@,
            r.timeout_ms == 1500,
            !r.include_unknown_sensors,
            r.sensor_allowlist@.len() == 0,
            r.sensor_denylist@.len() == 0,
            !r.require_provider,
    {
        WindowsLhmHttpConfig {
            enabled: is_windows,
            url: "http://127.0.0.1:8085/data.json".to_string(),
            timeout_ms: 1500,
            include_unknown_sensors: false,
            sensor_allowlist: Vec::new(),
            sensor_denylist: Vec::new(),
            require_provider: false,
        }
    }
}

#[derive(Debug, Clone)]
pub struct WindowsLhmWmiConfig {
    pub enabled: bool,
    pub namespace: String,
    pub include_unknown_sensors: bool,
    pub sensor_allowlist: Vec<String>,
    pub sensor_denylist: Vec<String>,
    pub require_provider: bool,
}

impl Default for WindowsLhmWmiConfig {
    fn default() -> (r: Self)
        ensures
            !r.enabled,
            r.namespace@ == "root\\LibreHardwareMonitor"@,
            !r.include_unknown_sensors,
            r.sensor_allowlist@.len() == 0,
            r.sensor_denylist@.len() == 0,
            !r.require_provider,
    {
        WindowsLhmWmiConfig {
            enabled: false,
            namespace: "root\\LibreHardwareMonitor".to_string(),
            include_unknown_sensors: false,
            sensor_allowlist: Vec::new(),
            sensor_denylist: Vec::new(),
            require_provider: false,
        }
    }
}


// ---------------------------------------------------------------------------
// The whole configuration
// ---------------------------------------------------------------------------

/// The schedule of adaptive sampling; its temperature thresholds are held
/// and compared by the caller.
#[derive(Debug, Clone)]
pub struct AdaptiveSamplingSchedule {
    pub enabled: bool,
    pub levels: AdaptiveSamplingLevelsConfig,
    pub cooldown_seconds: u64,
}

impl Default for AdaptiveSamplingSchedule {
    fn default() -> (r: Self)
        ensures
            r.enabled,
            r.levels.normal_seconds == 15,
            r.levels.warm_seconds == 10,
            r.levels.hot_seconds == 5,
            r.levels.critical_seconds == 1,
            r.cooldown_seconds == 60,
    {
        AdaptiveSamplingSchedule {
            enabled: true,
            levels: AdaptiveSamplingLevelsConfig::default(),
            cooldown_seconds: 60,
        }
    }
}

/// The sampling settings of the Apple Silicon collector; its temperature
/// and power bounds are held and compared by the caller.
#[derive(Debug, Clone)]
pub struct MacosMacmonSchedule {
    pub enabled: bool,
    pub sample_interval_seconds: u64,
    pub sample_window_milliseconds: u64,
    pub stale_after_seconds: u64,
    pub reinitialize_after_consecutive_errors: u64,
}

impl Default for MacosMacmonSchedule {
    fn default() -> (r: Self)
        ensures
            !r.enabled,
            r.sample_interval_seconds == 1,
            r.sample_window_milliseconds == 1000,
            r.stale_after_seconds == 5,
            r.reinitialize_after_consecutive_errors == 5,
    {
        MacosMacmonSchedule {
            enabled: false,
            sample_interval_seconds: 1,
            sample_window_milliseconds: 1000,
            stale_after_seconds: 5,
            reinitialize_after_consecutive_errors: 5,
        }
    }
}

/// The built-in default of each section, field by field.
pub open spec fn server_is_default(s: ServerConfig) -> bool {
    &&& s.listen@ == "127.0.0.1:9185"@
    &&& s.metrics_path@ == "/metrics"@
    &&& s.static_metrics_path@ == "/metrics/static"@
    &&& s.fps_metrics_path@ == "/fps"@
}

pub open spec fn identity_is_default(i: IdentityConfig, device_name: Seq<char>) -> bool {
    &&& i.user_name@ == Seq::<char>::empty()
    &&& i.device_name@ == device_name
    &&& i.machine_uuid@ == Seq::<char>::empty()
    &&& i.machine_uuid_file@ == Seq::<char>::empty()
}

/// The registration section's defaults that hold whether or not it is
/// enabled and pointed at a registry.
pub open spec fn registration_schedule_is_default(r: RegistrationConfig) -> bool {
    &&& r.device_id_file@ == Seq::<char>::empty()
    &&& r.heartbeat_interval_seconds == 30
    &&& r.scrape_port == 9185
    &&& r.advertised_addr@ == Seq::<char>::empty()
}

pub open spec fn registration_is_default(r: RegistrationConfig) -> bool {
    &&& !r.enabled
    &&& r.registry_addr@ == Seq::<char>::empty()
    &&& r.enrollment_token@ == Seq::<char>::empty()
    &&& registration_schedule_is_default(r)
}

pub open spec fn collection_is_default(c: CollectionConfig) -> bool {
    &&& c.scrape_cache_stale_after_seconds == 60
    &&& c.system_interval_seconds == 15
    &&& c.macos_thermal_state_interval_seconds == 15
    &&& c.temperature_interval_seconds == 15
    &&& c.sensor_rescan_interval_seconds == 300
    &&& c.gpu_interval_seconds == 15
    &&& c.windows_baseline_interval_seconds == 15
    &&& c.windows_inventory_interval_seconds == 300
    &&& c.static_info_interval_seconds == 300
}

pub open spec fn adaptive_sampling_is_default(a: AdaptiveSamplingSchedule) -> bool {
    &&& a.enabled
    &&& a.levels.normal_seconds == 15
    &&& a.levels.warm_seconds == 10
    &&& a.levels.hot_seconds == 5
    &&& a.levels.critical_seconds == 1
    &&& a.cooldown_seconds == 60
}

pub open spec fn diagnostics_is_default(d: DiagnosticsConfig) -> bool {
    &&& d.enabled
    &&& d.scrape_gap_threshold_seconds == 30
    &&& d.scheduler_lag_threshold_seconds == 5
    &&& d.log_scrape_gaps
    &&& d.log_scheduler_lag
    &&& d.log_scrape_interval_changes
}

pub open spec fn logging_is_default(l: LoggingConfig) -> bool {
    l.level@ == "info"@
}

/// The defaults of the collectors' intervals, limits and counts.
pub open spec fn collector_numbers_are_default(c: CollectorsConfig) -> bool {
    let g = c.steam_deck_game_state;
    let f = c.steam_deck_fps;
    let m = c.macos_macmon;
    &&& g.poll_interval_seconds == 1
    &&& g.stop_debounce_seconds == 5
    &&& f.max_frame_time_milliseconds == 1000
    &&& f.poll_interval_milliseconds == 100
    &&& f.max_messages_per_poll == 512
    &&& m.sample_interval_seconds == 1
    &&& m.sample_window_milliseconds == 1000
    &&& m.stale_after_seconds == 5
    &&& m.reinitialize_after_consecutive_errors == 5
}

pub open spec fn handheld_collectors_are_default(c: CollectorsConfig) -> bool {
    let g = c.steam_deck_game_state;
    let f = c.steam_deck_fps;
    &&& !g.enabled
    &&& g.xprop_path@ == "xprop"@
    &&& g.display@ == ":0"@
    &&& g.auto_discover_steam_display
    &&& g.desktop_fallback_enabled
    &&& g.process_fallback_enabled
    &&& !f.enabled
    &&& f.windows_seconds@ == seq![1u64, 5, 60]
    &&& f.include_appid_label
    &&& f.include_game_name_label
    &&& f.source_preference@.len() == 3
    &&& f.source_preference@[0]@ == "gamescope_wayland"@
    &&& f.source_preference@[1]@ == "mangohud_log"@
    &&& f.source_preference@[2]@ == "gamescope_mangoapp"@
    &&& !f.gamescope_wayland.enabled
    &&& f.gamescope_wayland.display@ == Seq::<char>::empty()
    &&& !f.mangohud_log.enabled
    &&& f.mangohud_log.paths@.len() == 0
    &&& f.mangohud_log.auto_discover
    &&& !f.gamescope_mangoapp.enabled
    &&& f.gamescope_mangoapp.ftok_path@ == "mangoapp"@
    &&& f.gamescope_mangoapp.project_id == 65
    &&& !f.gamescope_mangoapp.legacy_failed_ftok_fallback_enabled
    &&& !f.gamescope_mangoapp.allow_destructive_read
    &&& f.steam_library_roots@.len() == 0
}

pub open spec fn windows_collectors_are_default(c: CollectorsConfig, is_windows: bool) -> bool {
    let b = c.windows_baseline;
    let h = c.windows_lhm_http;
    let w = c.windows_lhm_wmi;
    &&& b.enabled == is_windows
    &&& !b.include_removable_drives
    &&& !b.include_remote_drives
    &&& b.network_interface_allowlist@.len() == 0
    &&& b.network_interface_denylist@.len() == 3
    &&& b.network_interface_denylist@[0]@ == "loopback"@
    &&& b.network_interface_denylist@[1]@ == "isatap"@
    &&& b.network_interface_denylist@[2]@ == "teredo"@
    &&& c.windows_inventory.enabled == is_windows
    &&& h.enabled == is_windows
    &&& h.url@ == "http://127.0.0.1:8085/data.json"@
    &&& h.timeout_ms == 1500
    &&& !h.include_unknown_sensors
    &&& h.sensor_allowlist@.len() == 0
    &&& h.sensor_denylist@.len() == 0
    &&& !h.require_provider
    &&& !w.enabled
    &&& w.namespace@ == "root\\LibreHardwareMonitor"@
    &&& !w.include_unknown_sensors
    &&& w.sensor_allowlist@.len() == 0
    &&& w.sensor_denylist@.len() == 0
    &&& !w.require_provider
}

/// The collectors' defaults on the given platform, field by field.
pub open spec fn collectors_are_default(c: CollectorsConfig, is_windows: bool, is_macos: bool) -> bool {
    collector_settings_are_default(c, is_windows, is_macos) && collector_numbers_are_default(c)
}

/// The collectors' defaults on the given platform, but for their intervals,
/// limits and counts.
pub open spec fn collector_settings_are_default(c: CollectorsConfig, is_windows: bool, is_macos: bool) -> bool {
    let hw = c.linux_hwmon;
    let n = c.nvidia_nvml;
    &&& c.system.enabled && c.system.cpu_enabled && c.system.memory_enabled && c.system.uptime_enabled
    &&& c.macos_thermal_state.enabled == is_macos
    &&& !c.macos_macmon.enabled
    &&& !c.macos_exact_temperature_experimental.enabled
    &&& hw.enabled
    &&& hw.root@ == "/sys/class/hwmon"@
    &&& !hw.include_unknown_sensors
    &&& hw.nvme_enrichment_enabled
    &&& hw.expose_storage_model
    &&& hw.sensor_allowlist@.len() == 0
    &&& hw.sensor_denylist@.len() == 0
    &&& !c.linux_power_supply.enabled
    &&& c.linux_power_supply.root@ == "/sys/class/power_supply"@
    &&& c.linux_power_supply.derive_power_when_missing
    &&& !c.linux_amdgpu.enabled
    &&& c.linux_amdgpu.root@ == "/sys/class/drm"@
    &&& c.linux_amdgpu.include_diagnostic_only_gpu_metrics
    &&& !c.linux_drm.enabled
    &&& c.linux_drm.drm_root@ == "/sys/class/drm"@
    &&& c.linux_drm.proc_root@ == "/proc"@
    &&& c.linux_drm.target_pid is None
    &&& c.linux_drm.include_hwmon
    &&& !c.linux_drm.include_fdinfo
    &&& handheld_collectors_are_default(c)
    &&& n.enabled
    &&& n.library_paths@.len() == 0
    &&& n.expose_gpu_name
    &&& !n.expose_gpu_uuid
    &&& n.fan_speed_enabled
    &&& windows_collectors_are_default(c, is_windows)
}

/// The exporter's built-in default on the given platform, for the given
/// device name, field by field.
pub open spec fn app_config_is_default(c: AppConfig, is_windows: bool, is_macos: bool, device_name: Seq<char>) -> bool {
    &&& server_is_default(c.server)
    &&& identity_is_default(c.identity, device_name)
    &&& registration_is_default(c.registration)
    &&& collection_is_default(c.collection)
    &&& adaptive_sampling_is_default(c.adaptive_sampling)
    &&& collectors_are_default(c.collectors, is_windows, is_macos)
    &&& diagnostics_is_default(c.diagnostics)
    &&& logging_is_default(c.logging)
}

#[derive(Debug, Clone)]
pub struct CollectorsConfig {
    pub system: SystemConfig,
    pub macos_thermal_state: MacosThermalStateConfig,
    pub macos_macmon: MacosMacmonSchedule,
    pub macos_exact_temperature_experimental: MacosExactTemperatureExperimentalConfig,
    pub linux_hwmon: LinuxHwmonConfig,
    pub linux_power_supply: LinuxPowerSupplyConfig,
    pub linux_amdgpu: LinuxAmdgpuConfig,
    pub linux_drm: LinuxDrmConfig,
    pub steam_deck_game_state: SteamDeckGameStateConfig,
    pub steam_deck_fps: SteamDeckFpsConfig,
    pub nvidia_nvml: NvidiaNvmlConfig,
    pub windows_baseline: WindowsBaselineConfig,
    pub windows_inventory: WindowsInventoryConfig,
    pub windows_lhm_http: WindowsLhmHttpConfig,
    pub windows_lhm_wmi: WindowsLhmWmiConfig,
}

impl CollectorsConfig {
    /// The defaults on the given platform.
    pub fn default_for_platform(is_windows: bool, is_macos: bool) -> (r: Self)
        ensures
            collectors_are_default(r, is_windows, is_macos),
    {
        CollectorsConfig {
            system: SystemConfig::default(),
            macos_thermal_state: MacosThermalStateConfig::default_for_platform(is_macos),
            macos_macmon: MacosMacmonSchedule::default(),
            macos_exact_temperature_experimental: MacosExactTemperatureExperimentalConfig {
                enabled: false,
            },
            linux_hwmon: LinuxHwmonConfig::default(),
            linux_power_supply: LinuxPowerSupplyConfig::default(),
            linux_amdgpu: LinuxAmdgpuConfig::default(),
            linux_drm: LinuxDrmConfig::default(),
            steam_deck_game_state: SteamDeckGameStateConfig::default(),
            steam_deck_fps: SteamDeckFpsConfig::default(),
            nvidia_nvml: NvidiaNvmlConfig::default(),
            windows_baseline: WindowsBaselineConfig::default_for_platform(is_windows),
            windows_inventory: WindowsInventoryConfig::default_for_platform(is_windows),
            windows_lhm_http: WindowsLhmHttpConfig::default_for_platform(is_windows),
            windows_lhm_wmi: WindowsLhmWmiConfig::default(),
        }
    }
}

/// The exporter's configuration.
#[derive(Debug, Clone)]
pub struct AppConfig {
    pub server: ServerConfig,
    pub identity: IdentityConfig,
    pub registration: RegistrationConfig,
    pub collection: CollectionConfig,
    pub adaptive_sampling: AdaptiveSamplingSchedule,
    pub collectors: CollectorsConfig,
    pub diagnostics: DiagnosticsConfig,
    pub logging: LoggingConfig,
}

/// What the checks need to know that is decided outside this library:
/// whether the listen address parses as a socket address, and the
/// comparisons of the floating-point thresholds and bounds.
#[derive(Debug, Clone, Copy)]
pub struct ValidationFacts {
    pub listen_is_socket_address: bool,
    pub adaptive_temperatures_increase: bool,
    pub macmon_temperature_bounds_valid: bool,
    pub macmon_power_bound_valid: bool,
}

impl AppConfig {
    /// The defaults on the given platform, for the given device name.
    pub fn default_for_platform(is_windows: bool, is_macos: bool, device_name: String) -> (r: Self)
        ensures
            app_config_is_default(r, is_windows, is_macos, device_name@),
    {
        AppConfig {
            server: ServerConfig::default(),
            identity: IdentityConfig::default_with_device_name(device_name),
            registration: RegistrationConfig::default(),
            collection: CollectionConfig::default(),
            adaptive_sampling: AdaptiveSamplingSchedule::default(),
            collectors: CollectorsConfig::default_for_platform(is_windows, is_macos),
            diagnostics: DiagnosticsConfig::default(),
            logging: LoggingConfig::default(),
        }
    }
}

/// `{name} must be greater than 0` when the value is zero.
pub open spec fn positive_error(v: u64, name: Seq<char>) -> Option<Seq<char>> {
    if v == 0 {
        Some(name + " must be greater than 0"@)
    } else {
        None
    }
}

/// The first of two outcomes that is an error.
pub open spec fn or_else(a: Option<Seq<char>>, b: Option<Seq<char>>) -> Option<Seq<char>> {
    if a is Some {
        a
    } else {
        b
    }
}

pub open spec fn server_error(server: ServerConfig, listen_ok: bool) -> Option<Seq<char>> {
    if !listen_ok {
        Some("server.listen must be a socket address: "@ + server.listen@)
    } else if !starts_with(server.metrics_path@, "/"@) {
        Some("server.metrics_path must start with /"@)
    } else if !starts_with(server.static_metrics_path@, "/"@) {
        Some("server.static_metrics_path must start with /"@)
    } else if !starts_with(server.fps_metrics_path@, "/"@) {
        Some("server.fps_metrics_path must start with /"@)
    } else if server.static_metrics_path@ == server.metrics_path@ || server.fps_metrics_path@
        == server.metrics_path@ || server.fps_metrics_path@ == server.static_metrics_path@ {
        Some("server metrics paths must be distinct"@)
    } else {
        None
    }
}

pub open spec fn registration_error(reg: RegistrationConfig, identity: IdentityConfig) -> Option<
    Seq<char>,
> {
    if !reg.enabled {
        None
    } else if trim(reg.registry_addr@).len() == 0 {
        Some("registration.registry_addr must not be empty when registration is enabled"@)
    } else if trim(reg.enrollment_token@).len() == 0 {
        Some("registration.enrollment_token must not be empty when registration is enabled"@)
    } else if trim(identity.user_name@).len() == 0 {
        Some("identity.user_name must not be empty when registration is enabled"@)
    } else {
        None
    }
}

pub open spec fn intervals_error(c: AppConfig) -> Option<Seq<char>> {
    or_else(
        positive_error(
            c.collection.scrape_cache_stale_after_seconds,
            "collection.scrape_cache_stale_after_seconds"@,
        ),
        or_else(
            positive_error(c.collection.system_interval_seconds, "collection.system_interval_seconds"@),
            or_else(
                positive_error(
                    c.collection.macos_thermal_state_interval_seconds,
                    "collection.macos_thermal_state_interval_seconds"@,
                ),
                or_else(
                    positive_error(
                        c.collection.temperature_interval_seconds,
                        "collection.temperature_interval_seconds"@,
                    ),
                    or_else(
                        positive_error(
                            c.collection.sensor_rescan_interval_seconds,
                            "collection.sensor_rescan_interval_seconds"@,
                        ),
                        or_else(
                            positive_error(
                                c.collection.gpu_interval_seconds,
                                "collection.gpu_interval_seconds"@,
                            ),
                            or_else(
                                positive_error(
                                    c.collection.windows_baseline_interval_seconds,
                                    "collection.windows_baseline_interval_seconds"@,
                                ),
                                or_else(
                                    positive_error(
                                        c.collection.windows_inventory_interval_seconds,
                                        "collection.windows_inventory_interval_seconds"@,
                                    ),
                                    or_else(
                                        positive_error(
                                            c.collection.static_info_interval_seconds,
                                            "collection.static_info_interval_seconds"@,
                                        ),
                                        schedule_error(c),
                                    ),
                                ),
                            ),
                        ),
                    ),
                ),
            ),
        ),
    )
}

pub open spec fn schedule_error(c: AppConfig) -> Option<Seq<char>> {
    or_else(
        positive_error(
            c.registration.heartbeat_interval_seconds,
            "registration.heartbeat_interval_seconds"@,
        ),
        or_else(
            positive_error(
                c.adaptive_sampling.levels.normal_seconds,
                "adaptive_sampling.levels.normal_seconds"@,
            ),
            or_else(
                positive_error(
                    c.adaptive_sampling.levels.warm_seconds,
                    "adaptive_sampling.levels.warm_seconds"@,
                ),
                or_else(
                    positive_error(
                        c.adaptive_sampling.levels.hot_seconds,
                        "adaptive_sampling.levels.hot_seconds"@,
                    ),
                    or_else(
                        positive_error(
                            c.adaptive_sampling.levels.critical_seconds,
                            "adaptive_sampling.levels.critical_seconds"@,
                        ),
                        or_else(
                            positive_error(
                                c.adaptive_sampling.cooldown_seconds,
                                "adaptive_sampling.cooldown_seconds"@,
                            ),
                            or_else(
                                positive_error(
                                    c.diagnostics.scrape_gap_threshold_seconds,
                                    "diagnostics.scrape_gap_threshold_seconds"@,
                                ),
                                positive_error(
                                    c.diagnostics.scheduler_lag_threshold_seconds,
                                    "diagnostics.scheduler_lag_threshold_seconds"@,
                                ),
                            ),
                        ),
                    ),
                ),
            ),
        ),
    )
}

pub open spec fn roots_error(c: AppConfig, temperatures_ok: bool) -> Option<Seq<char>> {
    if !temperatures_ok {
        Some("adaptive_sampling.temperature thresholds must increase warm < hot < critical"@)
    } else if c.registration.scrape_port == 0 {
        Some("registration.scrape_port must be greater than 0"@)
    } else if c.collectors.linux_hwmon.root@.len() == 0 {
        Some("collectors.linux_hwmon.root must not be empty"@)
    } else if c.collectors.linux_power_supply.root@.len() == 0 {
        Some("collectors.linux_power_supply.root must not be empty"@)
    } else if c.collectors.linux_amdgpu.root@.len() == 0 {
        Some("collectors.linux_amdgpu.root must not be empty"@)
    } else {
        None
    }
}

pub open spec fn game_state_error(g: SteamDeckGameStateConfig) -> Option<Seq<char>> {
    or_else(
        positive_error(
            g.poll_interval_seconds,
            "collectors.steam_deck_game_state.poll_interval_seconds"@,
        ),
        or_else(
            positive_error(
                g.stop_debounce_seconds,
                "collectors.steam_deck_game_state.stop_debounce_seconds"@,
            ),
            if g.enabled && trim(g.xprop_path@).len() == 0 {
                Some("collectors.steam_deck_game_state.xprop_path must not be empty when enabled"@)
            } else {
                None
            },
        ),
    )
}

/// The first zero among the FPS windows, from index `i`.
pub open spec fn windows_error_from(ws: Seq<u64>, i: int) -> Option<Seq<char>>
    decreases ws.len() - i,
{
    if i < 0 || i >= ws.len() {
        None
    } else if ws[i] == 0 {
        Some(
            "collectors.steam_deck_fps.windows_seconds["@ + decimal(i as nat)
                + "] must be greater than 0"@,
        )
    } else {
        windows_error_from(ws, i + 1)
    }
}

pub open spec fn known_fps_source(s: Seq<char>) -> bool {
    s == "gamescope_wayland"@ || s == "mangohud_log"@ || s == "gamescope_mangoapp"@
}

/// `{:?}` of a string: quoted, with its special characters escaped.
pub uninterp spec fn debug_quoted(s: Seq<char>) -> Seq<char>;

/// The first unsupported FPS source, from index `i`.
pub open spec fn sources_error_from(sp: Seq<String>, i: int) -> Option<Seq<char>>
    decreases sp.len() - i,
{
    if i < 0 || i >= sp.len() {
        None
    } else if !known_fps_source(sp[i]@) {
        Some(
            "collectors.steam_deck_fps.source_preference["@ + decimal(i as nat)
                + "] has unsupported source "@ + debug_quoted(sp[i]@),
        )
    } else {
        sources_error_from(sp, i + 1)
    }
}

/// The first empty MangoHud log path, from index `i`.
pub open spec fn paths_error_from(paths: Seq<String>, i: int) -> Option<Seq<char>>
    decreases paths.len() - i,
{
    if i < 0 || i >= paths.len() {
        None
    } else if paths[i]@.len() == 0 {
        Some(
            "collectors.steam_deck_fps.mangohud_log.paths["@ + decimal(i as nat)
                + "] must not be empty when enabled"@,
        )
    } else {
        paths_error_from(paths, i + 1)
    }
}

pub open spec fn fps_error(f: SteamDeckFpsConfig) -> Option<Seq<char>> {
    or_else(
        positive_error(
            f.poll_interval_milliseconds,
            "collectors.steam_deck_fps.poll_interval_milliseconds"@,
        ),
        or_else(
            positive_error(
                f.max_messages_per_poll,
                "collectors.steam_deck_fps.max_messages_per_poll"@,
            ),
            or_else(
                positive_error(
                    f.max_frame_time_milliseconds,
                    "collectors.steam_deck_fps.max_frame_time_milliseconds"@,
                ),
                or_else(
                    if !f.enabled {
                        None
                    } else if f.windows_seconds@.len() == 0 {
                        Some(
                            "collectors.steam_deck_fps.windows_seconds must not be empty when enabled"@,
                        )
                    } else if f.source_preference@.len() == 0 {
                        Some(
                            "collectors.steam_deck_fps.source_preference must not be empty when enabled"@,
                        )
                    } else {
                        windows_error_from(f.windows_seconds@, 0)
                    },
                    or_else(
                        sources_error_from(f.source_preference@, 0),
                        or_else(
                            if f.mangohud_log.enabled {
                                paths_error_from(f.mangohud_log.paths@, 0)
                            } else {
                                None
                            },
                            if f.gamescope_mangoapp.enabled && f.gamescope_mangoapp.ftok_path@.len()
                                == 0 {
                                Some(
                                    "collectors.steam_deck_fps.gamescope_mangoapp.ftok_path must not be empty when enabled"@,
                                )
                            } else {
                                None
                            },
                        ),
                    ),
                ),
            ),
        ),
    )
}

/// The checks of the FPS collector's interval and limits, in order.
pub open spec fn fps_numbers_error(f: SteamDeckFpsConfig) -> Option<Seq<char>> {
    or_else(
        positive_error(
            f.poll_interval_milliseconds,
            "collectors.steam_deck_fps.poll_interval_milliseconds"@,
        ),
        or_else(
            positive_error(f.max_messages_per_poll, "collectors.steam_deck_fps.max_messages_per_poll"@),
            positive_error(
                f.max_frame_time_milliseconds,
                "collectors.steam_deck_fps.max_frame_time_milliseconds"@,
            ),
        ),
    )
}

pub open spec fn windows_collectors_error(c: CollectorsConfig) -> Option<Seq<char>> {
    if c.windows_lhm_http.enabled && trim(c.windows_lhm_http.url@).len() == 0 {
        Some("collectors.windows_lhm_http.url must not be empty when enabled"@)
    } else if c.windows_lhm_http.enabled && !starts_with(c.windows_lhm_http.url@, "http://"@) {
        Some("collectors.windows_lhm_http.url must start with http:// when enabled"@)
    } else if c.windows_lhm_http.enabled && c.windows_lhm_http.timeout_ms == 0 {
        positive_error(c.windows_lhm_http.timeout_ms, "collectors.windows_lhm_http.timeout_ms"@)
    } else if c.windows_lhm_wmi.enabled && trim(c.windows_lhm_wmi.namespace@).len() == 0 {
        Some("collectors.windows_lhm_wmi.namespace must not be empty when enabled"@)
    } else {
        None
    }
}

pub open spec fn macmon_error(m: MacosMacmonSchedule, facts: ValidationFacts) -> Option<Seq<char>> {
    or_else(
        positive_error(
            m.sample_interval_seconds,
            "collectors.macos_macmon.sample_interval_seconds"@,
        ),
        or_else(
            positive_error(
                m.sample_window_milliseconds,
                "collectors.macos_macmon.sample_window_milliseconds"@,
            ),
            if m.sample_window_milliseconds > u32::MAX {
                Some("collectors.macos_macmon.sample_window_milliseconds must fit in u32"@)
            } else {
                or_else(
                    positive_error(
                        m.stale_after_seconds,
                        "collectors.macos_macmon.stale_after_seconds"@,
                    ),
                    or_else(
                        positive_error(
                            m.reinitialize_after_consecutive_errors,
                            "collectors.macos_macmon.reinitialize_after_consecutive_errors"@,
                        ),
                        if !facts.macmon_temperature_bounds_valid {
                            Some(
                                "collectors.macos_macmon temperature bounds must be finite and increase min < max"@,
                            )
                        } else if !facts.macmon_power_bound_valid {
                            Some(
                                "collectors.macos_macmon.max_power_watts must be finite and greater than 0"@,
                            )
                        } else {
                            None
                        },
                    ),
                )
            },
        ),
    )
}

pub open spec fn known_level(level: Seq<char>) -> bool {
    level == "trace"@ || level == "debug"@ || level == "info"@ || level == "warn"@ || level
        == "error"@
}

pub open spec fn level_error(level: Seq<char>) -> Option<Seq<char>> {
    if known_level(level) {
        None
    } else {
        Some("logging.level must be trace, debug, info, warn, or error: "@ + level)
    }
}

/// The first problem of an exporter configuration, in the order the checks
/// are made; none when it is valid.
pub open spec fn app_config_error(c: AppConfig, facts: ValidationFacts) -> Option<Seq<char>> {
    or_else(
        server_error(c.server, facts.listen_is_socket_address),
        or_else(
            registration_error(c.registration, c.identity),
            or_else(
                intervals_error(c),
                or_else(
                    roots_error(c, facts.adaptive_temperatures_increase),
                    or_else(
                        game_state_error(c.collectors.steam_deck_game_state),
                        or_else(
                            fps_error(c.collectors.steam_deck_fps),
                            or_else(
                                windows_collectors_error(c.collectors),
                                or_else(
                                    macmon_error(c.collectors.macos_macmon, facts),
                                    level_error(c.logging.level@),
                                ),
                            ),
                        ),
                    ),
                ),
            ),
        ),
    )
}

/// The outcomes, decided outside this library, that the built-in defaults
/// have: the default listen address parses, the default temperature
/// thresholds increase, and the default Apple Silicon bounds are sound.
pub open spec fn facts_hold(facts: ValidationFacts) -> bool {
    &&& facts.listen_is_socket_address
    &&& facts.adaptive_temperatures_increase
    &&& facts.macmon_temperature_bounds_valid
    &&& facts.macmon_power_bound_valid
}

/// Every check after the registration and interval checks passes on the
/// defaults of the sections it reads.
proof fn lemma_default_sections_pass(c: AppConfig, is_windows: bool, is_macos: bool, facts: ValidationFacts)
    requires
        server_is_default(c.server),
        c.registration.scrape_port > 0,
        collector_settings_are_default(c.collectors, is_windows, is_macos),
        logging_is_default(c.logging),
        facts_hold(facts),
    ensures
        server_error(c.server, facts.listen_is_socket_address) is None,
        roots_error(c, facts.adaptive_temperatures_increase) is None,
        windows_collectors_error(c.collectors) is None,
        level_error(c.logging.level@) is None,
        collector_numbers_are_default(c.collectors) ==> game_state_error(c.collectors.steam_deck_game_state) is None
            && fps_error(c.collectors.steam_deck_fps) is None && macmon_error(c.collectors.macos_macmon, facts) is None,
        fps_error(c.collectors.steam_deck_fps) == fps_numbers_error(c.collectors.steam_deck_fps),
{
    reveal_strlit("/");
    reveal_strlit("/metrics");
    reveal_strlit("/metrics/static");
    reveal_strlit("/fps");
    reveal_strlit("/sys/class/hwmon");
    reveal_strlit("/sys/class/power_supply");
    reveal_strlit("/sys/class/drm");
    reveal_strlit("http://");
    reveal_strlit("http://127.0.0.1:8085/data.json");
    assert("/metrics"@.subrange(0, 1) =~= "/"@);
    assert("/metrics/static"@.subrange(0, 1) =~= "/"@);
    assert("/fps"@.subrange(0, 1) =~= "/"@);
    let url = c.collectors.windows_lhm_http.url@;
    assert(url.subrange(0, 7) =~= "http://"@);
    assert(trim_start(url) == url);
    assert(trim_end(url) == url);
    let sp = c.collectors.steam_deck_fps.source_preference@;
    assert(sources_error_from(sp, 3) is None);
    assert(sources_error_from(sp, 2) is None);
    assert(sources_error_from(sp, 1) is None);
    assert(sources_error_from(sp, 0) is None);
}

/// On a configuration whose sections keep their defaults apart from the
/// registration's address, token and switch and the identity, the only
/// problem can be the registration's: validation refuses it exactly when
/// registration is enabled with a blank address, token or user name.
pub proof fn lemma_default_config_checks_only_registration(
    c: AppConfig,
    is_windows: bool,
    is_macos: bool,
    facts: ValidationFacts,
)
    requires
        server_is_default(c.server),
        registration_schedule_is_default(c.registration),
        collection_is_default(c.collection),
        adaptive_sampling_is_default(c.adaptive_sampling),
        collectors_are_default(c.collectors, is_windows, is_macos),
        diagnostics_is_default(c.diagnostics),
        logging_is_default(c.logging),
        facts_hold(facts),
    ensures
        app_config_error(c, facts) == registration_error(c.registration, c.identity),
{
    lemma_default_sections_pass(c, is_windows, is_macos, facts);
    assert(schedule_error(c) is None);
}

/// On a configuration whose sections keep their defaults apart from the
/// intervals and thresholds (collection intervals, registration heartbeat,
/// adaptive sampling levels and cooldown, diagnostics thresholds) and the
/// switches around them, with registration off, the only problem can be a
/// zero interval: the error is the first that is 0, named by its path.
pub proof fn lemma_default_config_checks_only_intervals(
    c: AppConfig,
    is_windows: bool,
    is_macos: bool,
    facts: ValidationFacts,
)
    requires
        server_is_default(c.server),
        !c.registration.enabled,
        c.registration.scrape_port == 9185,
        collectors_are_default(c.collectors, is_windows, is_macos),
        logging_is_default(c.logging),
        facts_hold(facts),
    ensures
        app_config_error(c, facts) == intervals_error(c),
{
    lemma_default_sections_pass(c, is_windows, is_macos, facts);
}

/// On a configuration whose sections keep their defaults apart from the
/// intervals, thresholds, limits and counts (with registration off), the
/// only problem can be one of those numbers: the first that is 0 (or a
/// sample window that does not fit in `u32`), named by its path, in the
/// order the checks are made.
pub proof fn lemma_default_config_checks_only_numbers(
    c: AppConfig,
    is_windows: bool,
    is_macos: bool,
    facts: ValidationFacts,
)
    requires
        server_is_default(c.server),
        !c.registration.enabled,
        c.registration.scrape_port == 9185,
        collector_settings_are_default(c.collectors, is_windows, is_macos),
        logging_is_default(c.logging),
        facts_hold(facts),
    ensures
        app_config_error(c, facts) == or_else(
            intervals_error(c),
            or_else(
                game_state_error(c.collectors.steam_deck_game_state),
                or_else(
                    fps_numbers_error(c.collectors.steam_deck_fps),
                    macmon_error(c.collectors.macos_macmon, facts),
                ),
            ),
        ),
{
    lemma_default_sections_pass(c, is_windows, is_macos, facts);
}

/// The built-in default configuration passes validation on every platform
/// and for every device name, given the outcomes the defaults have outside
/// this library.
pub proof fn lemma_default_config_validates(
    c: AppConfig,
    is_windows: bool,
    is_macos: bool,
    device_name: Seq<char>,
    facts: ValidationFacts,
)
    requires
        app_config_is_default(c, is_windows, is_macos, device_name),
        facts_hold(facts),
    ensures
        app_config_error(c, facts) is None,
{
    lemma_default_config_checks_only_intervals(c, is_windows, is_macos, facts);
}

/// The first problem of a registry configuration; none when it is valid.
pub open spec fn registry_config_error(c: RegistryAppConfig, listen_ok: bool) -> Option<Seq<char>> {
    if !listen_ok {
        Some("registry.listen must be a socket address: "@ + c.registry.listen@)
    } else if c.registry.storage_path@.len() == 0 {
        Some("registry.storage_path must not be empty"@)
    } else if trim(c.registry.enrollment_token@).len() == 0 {
        Some("registry.enrollment_token must not be empty"@)
    } else {
        or_else(
            positive_error(
                c.registry.device_stale_after_seconds,
                "registry.device_stale_after_seconds"@,
            ),
            level_error(c.logging.level@),
        )
    }
}

pub open spec fn opt_string_view(o: Option<String>) -> Option<Seq<char>> {
    match o {
        Some(s) => Some(s@),
        None => None,
    }
}

/// `format!("{:?}", s)`.
#[verifier::external_body]
pub(crate) fn debug_string(s: &str) -> (r: String)
    ensures
        r@ == debug_quoted(s@),
{
    format!("{:?}", s)
}

fn text(lit: &str) -> (r: String)
    ensures
        r@ == lit@,
{
    string_of(&chars_of(lit))
}

fn join_text(a: &str, b: &str) -> (r: String)
    ensures
        r@ == a@ + b@,
{
    string_of(&concat(&chars_of(a), &chars_of(b)))
}

fn check_positive(v: u64, name: &str) -> (r: Option<String>)
    ensures
        opt_string_view(r) == positive_error(v, name@),
{
    if v == 0 {
        Some(join_text(name, " must be greater than 0"))
    } else {
        None
    }
}

fn is_blank(s: &str) -> (r: bool)
    ensures
        r == (trim(s@).len() == 0),
{
    trim_chars(&chars_of(s)).len() == 0
}

fn starts_with_text(s: &str, p: &str) -> (r: bool)
    ensures
        r == starts_with(s@, p@),
{
    starts_with_chars(&chars_of(s), &chars_of(p))
}

fn same_text(a: &str, b: &str) -> (r: bool)
    ensures
        r == (a@ == b@),
{
    chars_eq(&chars_of(a), &chars_of(b))
}

fn indexed_message(prefix: &str, i: usize, suffix: &str) -> (r: String)
    ensures
        r@ == prefix@ + decimal(i as nat) + suffix@,
{
    let a = concat(&chars_of(prefix), &decimal_chars(i as u64));
    string_of(&concat(&a, &chars_of(suffix)))
}

fn check_server(server: &ServerConfig, listen_ok: bool) -> (r: Option<String>)
    ensures
        opt_string_view(r) == server_error(*server, listen_ok),
{
    if !listen_ok {
        return Some(join_text("server.listen must be a socket address: ", server.listen.as_str()));
    }
    if !starts_with_text(server.metrics_path.as_str(), "/") {
        return Some(text("server.metrics_path must start with /"));
    }
    if !starts_with_text(server.static_metrics_path.as_str(), "/") {
        return Some(text("server.static_metrics_path must start with /"));
    }
    if !starts_with_text(server.fps_metrics_path.as_str(), "/") {
        return Some(text("server.fps_metrics_path must start with /"));
    }
    if same_text(server.static_metrics_path.as_str(), server.metrics_path.as_str()) || same_text(
        server.fps_metrics_path.as_str(),
        server.metrics_path.as_str(),
    ) || same_text(server.fps_metrics_path.as_str(), server.static_metrics_path.as_str()) {
        return Some(text("server metrics paths must be distinct"));
    }
    None
}

fn check_registration(reg: &RegistrationConfig, identity: &IdentityConfig) -> (r: Option<String>)
    ensures
        opt_string_view(r) == registration_error(*reg, *identity),
{
    if !reg.enabled {
        return None;
    }
    if is_blank(reg.registry_addr.as_str()) {
        return Some(
            text("registration.registry_addr must not be empty when registration is enabled"),
        );
    }
    if is_blank(reg.enrollment_token.as_str()) {
        return Some(
            text("registration.enrollment_token must not be empty when registration is enabled"),
        );
    }
    if is_blank(identity.user_name.as_str()) {
        return Some(text("identity.user_name must not be empty when registration is enabled"));
    }
    None
}

fn check_schedule(c: &AppConfig) -> (r: Option<String>)
    ensures
        opt_string_view(r) == schedule_error(*c),
{
    let r = check_positive(c.registration.heartbeat_interval_seconds, "registration.heartbeat_interval_seconds");
    if r.is_some() {
        return r;
    }
    let r = check_positive(c.adaptive_sampling.levels.normal_seconds, "adaptive_sampling.levels.normal_seconds");
    if r.is_some() {
        return r;
    }
    let r = check_positive(c.adaptive_sampling.levels.warm_seconds, "adaptive_sampling.levels.warm_seconds");
    if r.is_some() {
        return r;
    }
    let r = check_positive(c.adaptive_sampling.levels.hot_seconds, "adaptive_sampling.levels.hot_seconds");
    if r.is_some() {
        return r;
    }
    let r = check_positive(c.adaptive_sampling.levels.critical_seconds, "adaptive_sampling.levels.critical_seconds");
    if r.is_some() {
        return r;
    }
    let r = check_positive(c.adaptive_sampling.cooldown_seconds, "adaptive_sampling.cooldown_seconds");
    if r.is_some() {
        return r;
    }
    let r = check_positive(c.diagnostics.scrape_gap_threshold_seconds, "diagnostics.scrape_gap_threshold_seconds");
    if r.is_some() {
        return r;
    }
    check_positive(c.diagnostics.scheduler_lag_threshold_seconds, "diagnostics.scheduler_lag_threshold_seconds")
}

fn check_intervals(c: &AppConfig) -> (r: Option<String>)
    ensures
        opt_string_view(r) == intervals_error(*c),
{
    let k = &c.collection;
    let r = check_positive(k.scrape_cache_stale_after_seconds, "collection.scrape_cache_stale_after_seconds");
    if r.is_some() {
        return r;
    }
    let r = check_positive(k.system_interval_seconds, "collection.system_interval_seconds");
    if r.is_some() {
        return r;
    }
    let r = check_positive(k.macos_thermal_state_interval_seconds, "collection.macos_thermal_state_interval_seconds");
    if r.is_some() {
        return r;
    }
    let r = check_positive(k.temperature_interval_seconds, "collection.temperature_interval_seconds");
    if r.is_some() {
        return r;
    }
    let r = check_positive(k.sensor_rescan_interval_seconds, "collection.sensor_rescan_interval_seconds");
    if r.is_some() {
        return r;
    }
    let r = check_positive(k.gpu_interval_seconds, "collection.gpu_interval_seconds");
    if r.is_some() {
        return r;
    }
    let r = check_positive(k.windows_baseline_interval_seconds, "collection.windows_baseline_interval_seconds");
    if r.is_some() {
        return r;
    }
    let r = check_positive(k.windows_inventory_interval_seconds, "collection.windows_inventory_interval_seconds");
    if r.is_some() {
        return r;
    }
    let r = check_positive(k.static_info_interval_seconds, "collection.static_info_interval_seconds");
    if r.is_some() {
        return r;
    }
    check_schedule(c)
}

fn check_roots(c: &AppConfig, temperatures_ok: bool) -> (r: Option<String>)
    ensures
        opt_string_view(r) == roots_error(*c, temperatures_ok),
{
    if !temperatures_ok {
        return Some(text("adaptive_sampling.temperature thresholds must increase warm < hot < critical"));
    }
    if c.registration.scrape_port == 0 {
        return Some(text("registration.scrape_port must be greater than 0"));
    }
    if chars_of(c.collectors.linux_hwmon.root.as_str()).len() == 0 {
        return Some(text("collectors.linux_hwmon.root must not be empty"));
    }
    if chars_of(c.collectors.linux_power_supply.root.as_str()).len() == 0 {
        return Some(text("collectors.linux_power_supply.root must not be empty"));
    }
    if chars_of(c.collectors.linux_amdgpu.root.as_str()).len() == 0 {
        return Some(text("collectors.linux_amdgpu.root must not be empty"));
    }
    None
}

fn check_game_state(g: &SteamDeckGameStateConfig) -> (r: Option<String>)
    ensures
        opt_string_view(r) == game_state_error(*g),
{
    let r = check_positive(g.poll_interval_seconds, "collectors.steam_deck_game_state.poll_interval_seconds");
    if r.is_some() {
        return r;
    }
    let r = check_positive(g.stop_debounce_seconds, "collectors.steam_deck_game_state.stop_debounce_seconds");
    if r.is_some() {
        return r;
    }
    if g.enabled && is_blank(g.xprop_path.as_str()) {
        return Some(text("collectors.steam_deck_game_state.xprop_path must not be empty when enabled"));
    }
    None
}

fn check_windows_seconds(ws: &Vec<u64>) -> (r: Option<String>)
    ensures
        opt_string_view(r) == windows_error_from(ws@, 0),
{
    let mut i: usize = 0;
    while i < ws.len()
        invariant
            0 <= i <= ws@.len(),
            windows_error_from(ws@, 0) == windows_error_from(ws@, i as int),
        decreases ws.len() - i,
    {
        if ws[i] == 0 {
            return Some(
                indexed_message(
                    "collectors.steam_deck_fps.windows_seconds[",
                    i,
                    "] must be greater than 0",
                ),
            );
        }
        i += 1;
    }
    None
}

fn check_sources(sp: &Vec<String>) -> (r: Option<String>)
    ensures
        opt_string_view(r) == sources_error_from(sp@, 0),
{
    let mut i: usize = 0;
    while i < sp.len()
        invariant
            0 <= i <= sp@.len(),
            sources_error_from(sp@, 0) == sources_error_from(sp@, i as int),
        decreases sp.len() - i,
    {
        let s = sp[i].as_str();
        if !(same_text(s, "gamescope_wayland") || same_text(s, "mangohud_log") || same_text(
            s,
            "gamescope_mangoapp",
        )) {
            let head = indexed_message(
                "collectors.steam_deck_fps.source_preference[",
                i,
                "] has unsupported source ",
            );
            return Some(join_text(head.as_str(), debug_string(s).as_str()));
        }
        i += 1;
    }
    None
}

fn check_paths(paths: &Vec<String>) -> (r: Option<String>)
    ensures
        opt_string_view(r) == paths_error_from(paths@, 0),
{
    let mut i: usize = 0;
    while i < paths.len()
        invariant
            0 <= i <= paths@.len(),
            paths_error_from(paths@, 0) == paths_error_from(paths@, i as int),
        decreases paths.len() - i,
    {
        if chars_of(paths[i].as_str()).len() == 0 {
            return Some(
                indexed_message(
                    "collectors.steam_deck_fps.mangohud_log.paths[",
                    i,
                    "] must not be empty when enabled",
                ),
            );
        }
        i += 1;
    }
    None
}

fn check_fps(f: &SteamDeckFpsConfig) -> (r: Option<String>)
    ensures
        opt_string_view(r) == fps_error(*f),
{
    let r = check_positive(f.poll_interval_milliseconds, "collectors.steam_deck_fps.poll_interval_milliseconds");
    if r.is_some() {
        return r;
    }
    let r = check_positive(f.max_messages_per_poll, "collectors.steam_deck_fps.max_messages_per_poll");
    if r.is_some() {
        return r;
    }
    let r = check_positive(f.max_frame_time_milliseconds, "collectors.steam_deck_fps.max_frame_time_milliseconds");
    if r.is_some() {
        return r;
    }
    if f.enabled {
        if f.windows_seconds.len() == 0 {
            return Some(text("collectors.steam_deck_fps.windows_seconds must not be empty when enabled"));
        }
        if f.source_preference.len() == 0 {
            return Some(text("collectors.steam_deck_fps.source_preference must not be empty when enabled"));
        }
        let r = check_windows_seconds(&f.windows_seconds);
        if r.is_some() {
            return r;
        }
    }
    let r = check_sources(&f.source_preference);
    if r.is_some() {
        return r;
    }
    if f.mangohud_log.enabled {
        let r = check_paths(&f.mangohud_log.paths);
        if r.is_some() {
            return r;
        }
    }
    if f.gamescope_mangoapp.enabled && chars_of(f.gamescope_mangoapp.ftok_path.as_str()).len() == 0 {
        return Some(text("collectors.steam_deck_fps.gamescope_mangoapp.ftok_path must not be empty when enabled"));
    }
    None
}

fn check_windows_collectors(c: &CollectorsConfig) -> (r: Option<String>)
    ensures
        opt_string_view(r) == windows_collectors_error(*c),
{
    if c.windows_lhm_http.enabled {
        if is_blank(c.windows_lhm_http.url.as_str()) {
            return Some(text("collectors.windows_lhm_http.url must not be empty when enabled"));
        }
        if !starts_with_text(c.windows_lhm_http.url.as_str(), "http://") {
            return Some(text("collectors.windows_lhm_http.url must start with http:// when enabled"));
        }
        let r = check_positive(c.windows_lhm_http.timeout_ms, "collectors.windows_lhm_http.timeout_ms");
        if r.is_some() {
            return r;
        }
    }
    if c.windows_lhm_wmi.enabled && is_blank(c.windows_lhm_wmi.namespace.as_str()) {
        return Some(text("collectors.windows_lhm_wmi.namespace must not be empty when enabled"));
    }
    None
}

fn check_macmon(m: &MacosMacmonSchedule, facts: &ValidationFacts) -> (r: Option<String>)
    ensures
        opt_string_view(r) == macmon_error(*m, *facts),
{
    let r = check_positive(m.sample_interval_seconds, "collectors.macos_macmon.sample_interval_seconds");
    if r.is_some() {
        return r;
    }
    let r = check_positive(m.sample_window_milliseconds, "collectors.macos_macmon.sample_window_milliseconds");
    if r.is_some() {
        return r;
    }
    if m.sample_window_milliseconds > u32::MAX as u64 {
        return Some(text("collectors.macos_macmon.sample_window_milliseconds must fit in u32"));
    }
    let r = check_positive(m.stale_after_seconds, "collectors.macos_macmon.stale_after_seconds");
    if r.is_some() {
        return r;
    }
    let r = check_positive(m.reinitialize_after_consecutive_errors, "collectors.macos_macmon.reinitialize_after_consecutive_errors");
    if r.is_some() {
        return r;
    }
    if !facts.macmon_temperature_bounds_valid {
        return Some(text("collectors.macos_macmon temperature bounds must be finite and increase min < max"));
    }
    if !facts.macmon_power_bound_valid {
        return Some(text("collectors.macos_macmon.max_power_watts must be finite and greater than 0"));
    }
    None
}

fn check_level(level: &str) -> (r: Option<String>)
    ensures
        opt_string_view(r) == level_error(level@),
{
    if same_text(level, "trace") || same_text(level, "debug") || same_text(level, "info")
        || same_text(level, "warn") || same_text(level, "error") {
        None
    } else {
        Some(join_text("logging.level must be trace, debug, info, warn, or error: ", level))
    }
}

impl AppConfig {
    /// Checks the configuration: the first problem found, in a fixed order
    /// (server, registration, intervals, thresholds, roots, handheld
    /// collectors, Windows collectors, the Apple Silicon sampler, logging),
    /// is the error.
    pub fn validate(&self, facts: &ValidationFacts) -> (r: Result<(), String>)
        ensures
            match r {
                Ok(()) => app_config_error(*self, *facts) is None,
                Err(e) => app_config_error(*self, *facts) == Some(e@),
            },
    {
        let r = check_server(&self.server, facts.listen_is_socket_address);
        if let Some(e) = r {
            return Err(e);
        }
        let r = check_registration(&self.registration, &self.identity);
        if let Some(e) = r {
            return Err(e);
        }
        let r = check_intervals(self);
        if let Some(e) = r {
            return Err(e);
        }
        let r = check_roots(self, facts.adaptive_temperatures_increase);
        if let Some(e) = r {
            return Err(e);
        }
        let r = check_game_state(&self.collectors.steam_deck_game_state);
        if let Some(e) = r {
            return Err(e);
        }
        let r = check_fps(&self.collectors.steam_deck_fps);
        if let Some(e) = r {
            return Err(e);
        }
        let r = check_windows_collectors(&self.collectors);
        if let Some(e) = r {
            return Err(e);
        }
        let r = check_macmon(&self.collectors.macos_macmon, facts);
        if let Some(e) = r {
            return Err(e);
        }
        let r = check_level(self.logging.level.as_str());
        if let Some(e) = r {
            return Err(e);
        }
        Ok(())
    }
}

impl RegistryAppConfig {
    /// Checks the registry configuration; the first problem found is the
    /// error.
    pub fn validate(&self, listen_is_socket_address: bool) -> (r: Result<(), String>)
        ensures
            match r {
                Ok(()) => registry_config_error(*self, listen_is_socket_address) is None,
                Err(e) => registry_config_error(*self, listen_is_socket_address) == Some(e@),
            },
    {
        if !listen_is_socket_address {
            return Err(join_text("registry.listen must be a socket address: ", self.registry.listen.as_str()));
        }
        if chars_of(self.registry.storage_path.as_str()).len() == 0 {
            return Err(text("registry.storage_path must not be empty"));
        }
        if is_blank(self.registry.enrollment_token.as_str()) {
            return Err(text("registry.enrollment_token must not be empty"));
        }
        if let Some(e) = check_positive(self.registry.device_stale_after_seconds, "registry.device_stale_after_seconds") {
            return Err(e);
        }
        if let Some(e) = check_level(self.logging.level.as_str()) {
            return Err(e);
        }
        Ok(())
    }
}

/// A configuration text without its leading byte-order mark.
pub fn strip_leading_bom(text: &str) -> (r: String)
    ensures
        r@ == (if text@.len() > 0 && text@[0] == '\u{feff}' {
            text@.drop_first()
        } else {
            text@
        }),
{
    let v = chars_of(text);
    if v.len() > 0 && v[0] == '\u{feff}' {
        let rest = crate::text::slice_chars(&v, 1, v.len());
        assert(rest@ =~= text@.drop_first());
        string_of(&rest)
    } else {
        string_of(&v)
    }
}

} // verus!
