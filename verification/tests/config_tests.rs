use telemon::config::{
    default_device_name, strip_leading_bom, AppConfig, RegistryAppConfig, ValidationFacts,
};
use telemon::metrics::encode::{encode, EncodedSample};
use telemon::metrics::{
    escape_help, escape_label_value, labels, validate_metric_name, LabelSet, MetricError,
    MetricKind,
};

fn default_config() -> AppConfig {
    AppConfig::default_for_platform(false, false, "test-device".to_string())
}

/// The facts the host program derives for a configuration: the listen
/// address parse and the floating-point comparisons.
fn facts_for(
    listen: &str,
    thresholds: (f64, f64, f64),
    macmon_temperature: (f64, f64),
    macmon_power: f64,
) -> ValidationFacts {
    ValidationFacts {
        listen_is_socket_address: looks_like_socket_address(listen),
        adaptive_temperatures_increase: thresholds.0 < thresholds.1 && thresholds.1 < thresholds.2,
        macmon_temperature_bounds_valid: macmon_temperature.0.is_finite()
            && macmon_temperature.1.is_finite()
            && macmon_temperature.0 < macmon_temperature.1,
        macmon_power_bound_valid: macmon_power.is_finite() && macmon_power > 0.0,
    }
}

/// Whether an address reads as `host:port` with an IPv4 host (the form
/// these tests use).
fn looks_like_socket_address(listen: &str) -> bool {
    match listen.rsplit_once(':') {
        Some((host, port)) => {
            port.parse::<u16>().is_ok()
                && host.split('.').count() == 4
                && host.split('.').all(|part| part.parse::<u8>().is_ok())
        }
        None => false,
    }
}

fn default_facts(config: &AppConfig) -> ValidationFacts {
    facts_for(&config.server.listen, (60.0, 75.0, 85.0), (1.0, 130.0), 300.0)
}

fn validate(config: &AppConfig) -> Result<(), String> {
    config.validate(&default_facts(config))
}

#[test]
fn default_config_is_valid() {
    let config = default_config();
    validate(&config).unwrap();
}

#[test]
fn app_config_loads_utf8_bom_prefixed_yaml() {
    let text = strip_leading_bom("\u{feff}server:\n  listen: \"127.0.0.1:9185\"\n");
    assert_eq!(text, "server:\n  listen: \"127.0.0.1:9185\"\n");
    assert_eq!(strip_leading_bom("plain"), "plain");
}

#[test]
fn rejects_relative_metrics_path() {
    let mut config = default_config();
    config.server.metrics_path = "metrics".to_string();
    assert_eq!(
        validate(&config),
        Err("server.metrics_path must start with /".to_string())
    );
}

#[test]
fn rejects_bad_listen_address_and_shared_paths() {
    let mut config = default_config();
    config.server.listen = "not an address".to_string();
    assert_eq!(
        validate(&config),
        Err("server.listen must be a socket address: not an address".to_string())
    );
    let mut config = default_config();
    config.server.fps_metrics_path = "/metrics".to_string();
    assert_eq!(
        validate(&config),
        Err("server metrics paths must be distinct".to_string())
    );
}

#[test]
fn rejects_zero_intervals() {
    let mut config = default_config();
    config.collection.temperature_interval_seconds = 0;
    assert_eq!(
        validate(&config),
        Err("collection.temperature_interval_seconds must be greater than 0".to_string())
    );
}

#[test]
fn defaults_linux_hwmon_config() {
    let config = default_config();
    assert!(config.collectors.linux_hwmon.enabled);
    assert!(config.collectors.linux_hwmon.nvme_enrichment_enabled);
    assert!(config.collectors.linux_hwmon.expose_storage_model);
}

#[test]
fn defaults_linux_handheld_collector_config() {
    let config = default_config();
    assert!(!config.collectors.linux_power_supply.enabled);
    assert_eq!(config.collectors.linux_power_supply.root, "/sys/class/power_supply");
    assert!(config.collectors.linux_power_supply.derive_power_when_missing);
    assert!(!config.collectors.linux_amdgpu.enabled);
    assert_eq!(config.collectors.linux_amdgpu.root, "/sys/class/drm");
    assert!(config.collectors.linux_amdgpu.include_diagnostic_only_gpu_metrics);
    assert!(!config.collectors.linux_drm.enabled);
    assert_eq!(config.collectors.linux_drm.drm_root, "/sys/class/drm");
    assert_eq!(config.collectors.linux_drm.proc_root, "/proc");
    assert!(config.collectors.linux_drm.include_hwmon);
    assert!(!config.collectors.linux_drm.include_fdinfo);
    assert!(!config.collectors.steam_deck_game_state.enabled);
    assert_eq!(config.collectors.steam_deck_game_state.poll_interval_seconds, 1);
    assert_eq!(config.collectors.steam_deck_game_state.stop_debounce_seconds, 5);
    assert!(config.collectors.steam_deck_game_state.auto_discover_steam_display);
    assert!(config.collectors.steam_deck_game_state.desktop_fallback_enabled);
    assert!(config.collectors.steam_deck_game_state.process_fallback_enabled);
    assert!(!config.collectors.steam_deck_fps.enabled);
    assert_eq!(config.collectors.steam_deck_fps.windows_seconds, vec![1, 5, 60]);
    assert!(config.collectors.steam_deck_fps.include_appid_label);
    assert!(config.collectors.steam_deck_fps.include_game_name_label);
    assert_eq!(config.collectors.steam_deck_fps.max_frame_time_milliseconds, 1_000);
    assert_eq!(config.collectors.steam_deck_fps.poll_interval_milliseconds, 100);
    assert_eq!(config.collectors.steam_deck_fps.max_messages_per_poll, 512);
    assert_eq!(
        config.collectors.steam_deck_fps.source_preference,
        vec!["gamescope_wayland", "mangohud_log", "gamescope_mangoapp"]
    );
    assert!(!config.collectors.steam_deck_fps.gamescope_wayland.enabled);
    assert!(!config.collectors.steam_deck_fps.mangohud_log.enabled);
    assert!(config.collectors.steam_deck_fps.mangohud_log.auto_discover);
    assert!(config.collectors.steam_deck_fps.mangohud_log.paths.is_empty());
    assert!(!config.collectors.steam_deck_fps.gamescope_mangoapp.enabled);
    assert_eq!(config.collectors.steam_deck_fps.gamescope_mangoapp.ftok_path, "mangoapp");
    assert_eq!(config.collectors.steam_deck_fps.gamescope_mangoapp.project_id, 65);
    assert!(!config.collectors.steam_deck_fps.gamescope_mangoapp.legacy_failed_ftok_fallback_enabled);
    assert!(!config.collectors.steam_deck_fps.gamescope_mangoapp.allow_destructive_read);
}

#[test]
fn defaults_nvidia_nvml_config() {
    let config = default_config();
    assert_eq!(config.collection.gpu_interval_seconds, 15);
    assert!(config.collectors.nvidia_nvml.enabled);
    assert!(config.collectors.nvidia_nvml.library_paths.is_empty());
    assert!(config.collectors.nvidia_nvml.expose_gpu_name);
    assert!(!config.collectors.nvidia_nvml.expose_gpu_uuid);
    assert!(config.collectors.nvidia_nvml.fan_speed_enabled);
}

#[test]
fn defaults_windows_collector_config() {
    for on_windows in [false, true] {
        let config = AppConfig::default_for_platform(on_windows, false, "d".to_string());
        assert_eq!(config.collection.windows_baseline_interval_seconds, 15);
        assert_eq!(config.collection.windows_inventory_interval_seconds, 300);
        assert_eq!(config.collectors.windows_baseline.enabled, on_windows);
        assert_eq!(config.collectors.windows_inventory.enabled, on_windows);
        assert_eq!(config.collectors.windows_lhm_http.enabled, on_windows);
        assert_eq!(config.collectors.windows_lhm_http.url, "http://127.0.0.1:8085/data.json");
        assert_eq!(config.collectors.windows_lhm_http.timeout_ms, 1500);
        assert!(!config.collectors.windows_lhm_wmi.enabled);
        assert_eq!(config.collectors.windows_lhm_wmi.namespace, r"root\LibreHardwareMonitor");
        assert!(!config.collectors.windows_baseline.include_removable_drives);
        assert!(!config.collectors.windows_baseline.include_remote_drives);
        validate(&config).unwrap();
    }
}

#[test]
fn defaults_system_collector_config() {
    let config = default_config();
    assert_eq!(config.collection.system_interval_seconds, 15);
    assert!(config.collectors.system.enabled);
    assert!(config.collectors.system.cpu_enabled);
    assert!(config.collectors.system.memory_enabled);
    assert!(config.collectors.system.uptime_enabled);
}

#[test]
fn defaults_macos_collector_config() {
    for on_macos in [false, true] {
        let config = AppConfig::default_for_platform(false, on_macos, "d".to_string());
        assert_eq!(config.collection.macos_thermal_state_interval_seconds, 15);
        assert_eq!(config.collectors.macos_thermal_state.enabled, on_macos);
        assert!(!config.collectors.macos_macmon.enabled);
        assert_eq!(config.collectors.macos_macmon.sample_interval_seconds, 1);
        assert_eq!(config.collectors.macos_macmon.sample_window_milliseconds, 1000);
        assert_eq!(config.collectors.macos_macmon.stale_after_seconds, 5);
        assert_eq!(config.collectors.macos_macmon.reinitialize_after_consecutive_errors, 5);
        assert!(!config.collectors.macos_exact_temperature_experimental.enabled);
    }
}

#[test]
fn rejects_zero_system_interval() {
    let mut config = default_config();
    config.collection.system_interval_seconds = 0;
    assert!(validate(&config).is_err());
}

#[test]
fn defaults_diagnostics_config() {
    let config = default_config();
    assert!(config.diagnostics.enabled);
    assert_eq!(config.diagnostics.scrape_gap_threshold_seconds, 30);
    assert_eq!(config.diagnostics.scheduler_lag_threshold_seconds, 5);
    assert!(config.diagnostics.log_scrape_gaps);
    assert!(config.diagnostics.log_scheduler_lag);
    assert!(config.diagnostics.log_scrape_interval_changes);
}

#[test]
fn rejects_zero_diagnostics_thresholds() {
    let mut config = default_config();
    config.diagnostics.scrape_gap_threshold_seconds = 0;
    assert!(validate(&config).is_err());

    let mut config = default_config();
    config.diagnostics.scheduler_lag_threshold_seconds = 0;
    assert!(validate(&config).is_err());
}

#[test]
fn rejects_invalid_steam_deck_game_state_config() {
    let mut config = default_config();
    config.collectors.steam_deck_game_state.poll_interval_seconds = 0;
    assert!(validate(&config).is_err());

    let mut config = default_config();
    config.collectors.steam_deck_game_state.enabled = true;
    config.collectors.steam_deck_game_state.xprop_path = String::new();
    assert_eq!(
        validate(&config),
        Err("collectors.steam_deck_game_state.xprop_path must not be empty when enabled".to_string())
    );
}

#[test]
fn rejects_invalid_steam_deck_fps_config() {
    let mut config = default_config();
    config.collectors.steam_deck_fps.enabled = true;
    config.collectors.steam_deck_fps.windows_seconds.clear();
    assert!(validate(&config).is_err());

    let mut config = default_config();
    config.collectors.steam_deck_fps.poll_interval_milliseconds = 0;
    assert!(validate(&config).is_err());

    let mut config = default_config();
    config.collectors.steam_deck_fps.enabled = true;
    config.collectors.steam_deck_fps.source_preference.clear();
    assert!(validate(&config).is_err());

    let mut config = default_config();
    config.collectors.steam_deck_fps.source_preference = vec!["unknown".to_string()];
    assert_eq!(
        validate(&config),
        Err("collectors.steam_deck_fps.source_preference[0] has unsupported source \"unknown\"".to_string())
    );

    let mut config = default_config();
    config.collectors.steam_deck_fps.mangohud_log.enabled = true;
    config.collectors.steam_deck_fps.mangohud_log.paths = vec![String::new()];
    assert_eq!(
        validate(&config),
        Err("collectors.steam_deck_fps.mangohud_log.paths[0] must not be empty when enabled".to_string())
    );

    let mut config = default_config();
    config.collectors.steam_deck_fps.gamescope_mangoapp.enabled = true;
    config.collectors.steam_deck_fps.gamescope_mangoapp.ftok_path = String::new();
    assert!(validate(&config).is_err());
}

#[test]
fn fps_window_errors_name_the_index() {
    let mut config = default_config();
    config.collectors.steam_deck_fps.enabled = true;
    config.collectors.steam_deck_fps.windows_seconds = vec![1, 5, 0, 60];
    assert_eq!(
        validate(&config),
        Err("collectors.steam_deck_fps.windows_seconds[2] must be greater than 0".to_string())
    );
}

#[test]
fn rejects_zero_macos_thermal_interval() {
    let mut config = default_config();
    config.collection.macos_thermal_state_interval_seconds = 0;
    assert!(validate(&config).is_err());
}

#[test]
fn rejects_zero_macos_macmon_sample_interval() {
    let mut config = default_config();
    config.collectors.macos_macmon.sample_interval_seconds = 0;
    assert!(validate(&config).is_err());
}

#[test]
fn rejects_invalid_macos_macmon_temperature_bounds() {
    let config = default_config();
    let facts = facts_for(&config.server.listen, (60.0, 75.0, 85.0), (130.0, 1.0), 300.0);
    assert_eq!(
        config.validate(&facts),
        Err("collectors.macos_macmon temperature bounds must be finite and increase min < max".to_string())
    );
}

#[test]
fn rejects_invalid_macos_macmon_power_bound() {
    let config = default_config();
    let facts = facts_for(&config.server.listen, (60.0, 75.0, 85.0), (1.0, 130.0), 0.0);
    assert_eq!(
        config.validate(&facts),
        Err("collectors.macos_macmon.max_power_watts must be finite and greater than 0".to_string())
    );
}

#[test]
fn rejects_decreasing_adaptive_thresholds_and_wide_macmon_window() {
    let config = default_config();
    let facts = facts_for(&config.server.listen, (80.0, 75.0, 85.0), (1.0, 130.0), 300.0);
    assert_eq!(
        config.validate(&facts),
        Err("adaptive_sampling.temperature thresholds must increase warm < hot < critical".to_string())
    );
    let mut config = default_config();
    config.collectors.macos_macmon.sample_window_milliseconds = u64::from(u32::MAX) + 1;
    assert_eq!(
        validate(&config),
        Err("collectors.macos_macmon.sample_window_milliseconds must fit in u32".to_string())
    );
}

#[test]
fn rejects_unknown_logging_level() {
    let mut config = default_config();
    config.logging.level = "loud".to_string();
    assert_eq!(
        validate(&config),
        Err("logging.level must be trace, debug, info, warn, or error: loud".to_string())
    );
}

#[test]
fn registration_requires_server_token_and_user_when_enabled() {
    let mut config = default_config();
    config.registration.enabled = true;
    assert!(validate(&config).is_err());

    config.registration.registry_addr = "127.0.0.1:9186".to_string();
    config.registration.enrollment_token = "secret".to_string();
    config.identity.user_name = "example-user".to_string();
    validate(&config).unwrap();
}

#[test]
fn registry_config_is_valid_by_default() {
    let config = RegistryAppConfig::default();
    let listen_ok = looks_like_socket_address(&config.registry.listen);
    config.validate(listen_ok).unwrap();
}

#[test]
fn registry_config_loads_utf8_bom_prefixed_yaml() {
    let mut config = RegistryAppConfig::default();
    config.registry.enrollment_token = "  ".to_string();
    assert_eq!(
        config.validate(true),
        Err("registry.enrollment_token must not be empty".to_string())
    );
    assert_eq!(
        RegistryAppConfig::default().validate(false),
        Err("registry.listen must be a socket address: 0.0.0.0:9186".to_string())
    );
}

#[test]
fn device_name_falls_back_in_order() {
    assert_eq!(default_device_name(Some("host".to_string()), None), "host".to_string());
    assert_eq!(
        default_device_name(None, Some("PC".to_string())),
        "PC".to_string()
    );
    assert_eq!(default_device_name(Some("  ".to_string()), Some("PC".to_string())), "unknown-device".to_string());
    assert_eq!(default_device_name(None, None), "unknown-device".to_string());
}

// ---------------------------------------------------------------------------
// Metric names and text
// ---------------------------------------------------------------------------

#[test]
fn rejects_non_project_metric_names() {
    assert_eq!(
        validate_metric_name("other_metric".to_string()),
        Err(MetricError::InvalidProjectMetricName("other_metric".to_string()))
    );
    assert_eq!(
        MetricError::InvalidProjectMetricName("other_metric".to_string()).message(),
        "project metric name must start with telemon_: other_metric"
    );
    assert_eq!(
        validate_metric_name("system_cpu_count".to_string()),
        Ok("system_cpu_count".to_string())
    );
    assert_eq!(MetricKind::Gauge.as_str(), "gauge");
    assert_eq!(MetricKind::Counter.as_str(), "counter");
}

fn format_value(value: f64) -> String {
    if value.is_finite() && value.fract() == 0.0 {
        format!("{value:.0}")
    } else {
        value.to_string()
    }
}

fn sample(name: &str, help: &str, kind: MetricKind, pairs: &[(&str, &str)], value: f64) -> EncodedSample {
    EncodedSample {
        name: name.to_string(),
        help: help.to_string(),
        kind,
        labels: labels(pairs),
        value_bits: value.to_bits(),
        value_text: format_value(value),
    }
}

#[test]
fn encodes_metric_without_labels() {
    let s = sample("telemon_test_gauge", "A test gauge.", MetricKind::Gauge, &[], 1.0);
    assert_eq!(
        encode(&[s]),
        "# HELP telemon_test_gauge A test gauge.\n# TYPE telemon_test_gauge gauge\ntelemon_test_gauge 1\n"
    );
}

#[test]
fn encodes_metric_with_labels() {
    let s = sample(
        "telemon_test_total",
        "A test counter.",
        MetricKind::Counter,
        &[("collector", "example")],
        2.0,
    );
    assert!(encode(&[s]).contains("telemon_test_total{collector=\"example\"} 2\n"));
}

#[test]
fn escapes_label_values() {
    let s = sample(
        "telemon_test_gauge",
        "A test gauge.",
        MetricKind::Gauge,
        &[("value", "a\\b\"c\nd")],
        1.0,
    );
    assert!(encode(&[s]).contains("value=\"a\\\\b\\\"c\\nd\""));
    assert_eq!(escape_label_value("a\\b\"c\nd"), "a\\\\b\\\"c\\nd");
    assert_eq!(escape_help("line\nnext \\ \"q\""), "line\\nnext \\\\ \"q\"");
}

#[test]
fn output_is_deterministic() {
    let first = sample("telemon_b", "B.", MetricKind::Gauge, &[], 1.0);
    let second = sample("telemon_a", "A.", MetricKind::Gauge, &[], 1.0);
    let third = sample("telemon_b", "B.", MetricKind::Gauge, &[], 1.0);
    let fourth = sample("telemon_a", "A.", MetricKind::Gauge, &[], 1.0);
    assert_eq!(encode(&[first, second]), encode(&[fourth, third]));
}

#[test]
fn encode_orders_by_name_labels_and_value_with_one_header_per_name() {
    let samples = [
        sample("m_b", "B.", MetricKind::Gauge, &[("z", "1"), ("a", "2")], 3.0),
        sample("m_a", "A.", MetricKind::Counter, &[("k", "v2")], 0.5),
        sample("m_a", "A.", MetricKind::Counter, &[("k", "v1")], 7.0),
        sample("m_a", "A.", MetricKind::Counter, &[("k", "v1")], -1.0),
    ];
    assert_eq!(
        encode(&samples),
        "# HELP m_a A.\n# TYPE m_a counter\n\
         m_a{k=\"v1\"} -1\nm_a{k=\"v1\"} 7\nm_a{k=\"v2\"} 0.5\n\
         # HELP m_b B.\n# TYPE m_b gauge\nm_b{a=\"2\",z=\"1\"} 3\n"
    );
}

#[test]
fn later_label_pairs_replace_earlier_ones() {
    let set = labels(&[("a", "1"), ("b", "2"), ("a", "3")]);
    assert_eq!(set.get("a"), Some("3".to_string()));
    assert_eq!(set.get("b"), Some("2".to_string()));
    assert_eq!(set.get("c"), None);
    let mut set = LabelSet::new();
    set.insert("k".to_string(), "v".to_string());
    assert_eq!(set.get("k"), Some("v".to_string()));
}

#[test]
fn samples_equal_but_for_value_text_are_ordered_by_it() {
    let mut a = sample("system_x", "X.", MetricKind::Gauge, &[("k", "v")], 1.0);
    let mut b = sample("system_x", "X.", MetricKind::Gauge, &[("k", "v")], 1.0);
    a.value_text = "b".to_string();
    b.value_text = "a".to_string();
    let mut c = sample("system_x", "X.", MetricKind::Gauge, &[("k", "v")], 1.0);
    let mut d = sample("system_x", "X.", MetricKind::Gauge, &[("k", "v")], 1.0);
    c.value_text = "b".to_string();
    d.value_text = "a".to_string();
    let forward = encode(&[a, b]);
    assert_eq!(forward, encode(&[d, c]));
    assert!(forward.find("system_x{k=\"v\"} a").unwrap() < forward.find("system_x{k=\"v\"} b").unwrap());
}
