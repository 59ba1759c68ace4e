use telemon::config::{LinuxHwmonConfig, WindowsBaselineConfig, WindowsLhmHttpConfig};
use telemon::temperature::hwmon::{
    chip_included, component_for_chip, duplicate_positions, normalized_filter_set, fan_input_index, inspection_skip_reason,
    numbered_name, sensor_allowed, temp_input_index, temperature_mapping, valid_temperature_for_chip,
    LinuxHwmonCollector, LinuxHwmonDiscovery,
};
use telemon::temperature::model::{normalize_sensor_label, Component};
use telemon::temperature::sysfs::{
    extract_nvme_controller_from_path, extract_pci_bdf_from_path, infer_sys_root_from_hwmon_root,
    namespace_size_bytes, nvme_namespace_label, storage_id,
};
use telemon::windows::baseline::{
    cpu_busy_delta, drive_type_label, filetime_to_u64, interface_allowed, memory_used, CpuTimes,
    WindowsBaselineCollector,
};
use telemon::windows::inventory::{windows_version_text, WindowsInventoryCollector};
use telemon::config::WindowsInventoryConfig;
use telemon::windows::lhm_http::{
    decode_chunked_body, parse_http_response, parse_http_url, HttpResponseError, HttpUrl,
    HttpUrlError, LhmQueryOutcome, WindowsLhmHttpCollector,
};
use telemon::windows::lhm_wmi::{is_temperature_type, powershell_single_quoted};

// ---------------------------------------------------------------------------
// Temperature model
// ---------------------------------------------------------------------------

#[test]
fn component_label_values_are_stable() {
    assert_eq!(Component::Cpu.label_value(), "cpu");
    assert_eq!(Component::Gpu.label_value(), "gpu");
    assert_eq!(Component::Storage.label_value(), "storage");
    assert_eq!(Component::Unknown.label_value(), "unknown");
}

#[test]
fn normalizes_sensor_labels() {
    assert_eq!(normalize_sensor_label("Package id 0"), "package");
    assert_eq!(normalize_sensor_label("Core 0"), "core_0");
    assert_eq!(normalize_sensor_label("Composite"), "composite");
    assert_eq!(normalize_sensor_label("Tctl"), "tctl");
}

// ---------------------------------------------------------------------------
// hwmon
// ---------------------------------------------------------------------------

/// One temperature channel of a chip directory: its label and raw input.
struct Channel {
    label: Option<&'static str>,
    input: Option<i64>,
}

/// A chip directory: its `name` and its temperature channels.
struct Chip {
    name: &'static str,
    channels: Vec<Channel>,
}

/// The hwmon tree the collector's tests describe: a CPU package and core,
/// an NVMe drive, and a chip no component is known for.
fn hwmon_tree() -> Vec<Chip> {
    vec![
        Chip {
            name: "coretemp",
            channels: vec![
                Channel { label: Some("Package id 0"), input: Some(67_000) },
                Channel { label: Some("Core 0"), input: Some(61_000) },
            ],
        },
        Chip {
            name: "nvme",
            channels: vec![Channel { label: Some("Composite"), input: Some(38_000) }],
        },
        Chip {
            name: "unknownchip",
            channels: vec![Channel { label: Some("Mystery"), input: Some(40_000) }],
        },
    ]
}

/// What one channel yields: the emitted sensor name, or why it is skipped.
fn channel_outcome(config: &LinuxHwmonConfig, chip: &Chip, channel: &Channel) -> Result<String, String> {
    let component = component_for_chip(chip.name);
    let included = chip_included(component, config.include_unknown_sensors);
    let normalized = normalize_sensor_label(channel.label.unwrap_or("temp"));
    let valid = channel
        .input
        .map(|milli| valid_temperature_for_chip(chip.name, &normalized, milli))
        .unwrap_or(false);
    match inspection_skip_reason(
        included,
        &normalized,
        &config.sensor_allowlist,
        &config.sensor_denylist,
        valid,
        None,
    ) {
        Some(reason) => Err(reason),
        None => Ok(temperature_mapping(chip.name, channel.label, &normalized).sensor),
    }
}

#[test]
fn reports_discovery_counts_before_filtering() {
    let config = LinuxHwmonConfig::default();
    let mut discovery = LinuxHwmonDiscovery::default();
    discovery.root_exists = true;
    for chip in hwmon_tree() {
        discovery.count_chip(chip.channels.len());
        for channel in &chip.channels {
            if channel_outcome(&config, &chip, channel).is_ok() {
                discovery.readings_emitted += 1;
            }
        }
    }
    assert!(discovery.root_exists);
    assert_eq!(discovery.chips_discovered, 3);
    assert_eq!(discovery.temperature_inputs_discovered, 4);
    assert_eq!(discovery.readings_emitted, 3);
    assert_eq!(
        discovery.summary(),
        "available, root_exists=true, chips=3, temp_inputs=4, emitted_temperature_samples=3"
    );
    assert_eq!(
        LinuxHwmonCollector::discover_summary(&config, true, Ok(discovery)),
        discovery.summary()
    );
}

/// The walk over the hwmon root is in app/; this checks the library's
/// decision on each channel it reports.
#[test]
fn inspect_hardware_reports_raw_and_emitted_sensor_state() {
    let config = LinuxHwmonConfig::default();
    let tree = hwmon_tree();
    let cpu_chip = &tree[0];
    assert_eq!(component_for_chip(cpu_chip.name), Component::Cpu);
    let package = channel_outcome(&config, cpu_chip, &cpu_chip.channels[0]);
    assert_eq!(package, Ok("cpu_package_temp".to_string()));
    let mapping = temperature_mapping("coretemp", Some("Package id 0"), "package");
    assert_eq!(mapping.instance, "package");

    let unknown_chip = &tree[2];
    assert!(!chip_included(
        component_for_chip(unknown_chip.name),
        config.include_unknown_sensors
    ));
    assert_eq!(
        channel_outcome(&config, unknown_chip, &unknown_chip.channels[0]),
        Err("unknown_component_disabled".to_string())
    );
}

#[test]
fn includes_unknown_sources_when_configured() {
    let mut config = LinuxHwmonConfig::default();
    config.include_unknown_sensors = true;
    let tree = hwmon_tree();
    assert_eq!(
        channel_outcome(&config, &tree[2], &tree[2].channels[0]),
        Ok("mystery".to_string())
    );
}

#[test]
fn linux_hwmon_applies_allowlist_and_denylist() {
    let allow = normalized_filter_set(&["package".to_string(), "composite".to_string()]);
    let deny = normalized_filter_set(&["Composite".to_string()]);
    assert!(sensor_allowed(&allow, &[], "package"));
    assert!(!sensor_allowed(&allow, &[], "core_0"));
    assert!(!sensor_allowed(&allow, &deny, "composite"));
    assert_eq!(
        inspection_skip_reason(true, "core_0", &allow, &[], true, None),
        Some("not_in_allowlist".to_string())
    );
    assert_eq!(
        inspection_skip_reason(true, "composite", &[], &deny, true, None),
        Some("in_denylist".to_string())
    );
    assert_eq!(
        inspection_skip_reason(true, "x", &[], &[], false, Some("boom")),
        Some("invalid_or_unreadable_input: boom".to_string())
    );
}

#[test]
fn disambiguates_duplicate_sensor_labels() {
    let key = |sensor: &str| {
        vec![
            "storage".to_string(),
            sensor.to_string(),
            String::new(),
            String::new(),
        ]
    };
    let keys = vec![key("composite"), key("composite")];
    let positions = duplicate_positions(&keys);
    let names: Vec<String> = positions
        .iter()
        .map(|&position| {
            if position >= 2 {
                numbered_name("composite", position)
            } else {
                "composite".to_string()
            }
        })
        .collect();
    assert_eq!(names[0], "composite");
    assert_eq!(names[1], "composite_2");

    let keys = vec![key("a"), key("a"), key("b")];
    assert_eq!(duplicate_positions(&keys), vec![1, 2, 0]);
}

#[test]
fn hwmon_channel_files() {
    assert_eq!(temp_input_index("temp3_input"), Some("3".to_string()));
    assert_eq!(temp_input_index("temp_input"), None);
    assert_eq!(fan_input_index("fan1_input"), Some("1".to_string()));
    assert_eq!(component_for_chip("amdgpu"), Component::Gpu);
    assert_eq!(component_for_chip("acpitz"), Component::System);
}

#[test]
fn maps_nvme_hwmon_to_drive_labels_and_static_metrics() {
    assert_eq!(
        extract_nvme_controller_from_path("/sys/devices/pci0000:00/0000:01:00.0/nvme/nvme0/hwmon2"),
        Some("nvme0".to_string())
    );
    assert_eq!(
        extract_pci_bdf_from_path("/sys/devices/pci0000:00/0000:01:00.0/nvme/nvme0"),
        Some("0000:01:00.0".to_string())
    );
    assert_eq!(nvme_namespace_label("nvme0", "nvme0n1"), Some("n1".to_string()));
    assert_eq!(nvme_namespace_label("nvme0", "nvme1n1"), None);
    assert_eq!(namespace_size_bytes(Some(2)), Some(1024));
    assert_eq!(namespace_size_bytes(Some(u64::MAX)), None);
    let _ = storage_id(Some("0000:01:00.0"), "nvme0");
    assert_eq!(
        infer_sys_root_from_hwmon_root("/sys/class/hwmon"),
        Some("/sys".to_string())
    );
}

// ---------------------------------------------------------------------------
// Windows
// ---------------------------------------------------------------------------

#[test]
fn network_interface_filters_use_case_insensitive_substrings() {
    let config = WindowsBaselineConfig {
        network_interface_allowlist: vec!["ether".to_string()],
        network_interface_denylist: vec!["test".to_string()],
        ..WindowsBaselineConfig::default_for_platform(false)
    };

    assert!(interface_allowed(&config, "Ethernet 2"));
    assert!(!interface_allowed(&config, "Wi-Fi"));
    assert!(!interface_allowed(&config, "Ethernet Test"));
}

#[test]
fn memory_metrics_emit_total_available_and_used_bytes() {
    assert_eq!(memory_used(16, 6), 10);
    assert_eq!(memory_used(6, 16), 0);
    assert_eq!(filetime_to_u64(1, 2), (1_u64 << 32) | 2);
    assert_eq!(drive_type_label(3), Some("fixed"));
    let previous = CpuTimes { idle: 10, kernel: 30, user: 10 };
    let current = CpuTimes { idle: 20, kernel: 50, user: 20 };
    assert_eq!(cpu_busy_delta(previous, current), Some((20, 30)));
}

#[test]
fn baseline_non_windows_reports_unsupported_without_failing_process() {
    let config = WindowsBaselineConfig {
        enabled: true,
        ..WindowsBaselineConfig::default_for_platform(false)
    };
    assert_eq!(
        WindowsBaselineCollector::discover_summary(&config, false),
        "unsupported on this OS".to_string()
    );
    assert_eq!(
        WindowsBaselineCollector::discover_summary(&config, true),
        "available".to_string()
    );
}

#[test]
fn inventory_non_windows_reports_unsupported_without_failing_process() {
    let config = WindowsInventoryConfig { enabled: true };
    assert_eq!(
        WindowsInventoryCollector::discover_summary(&config, false),
        "unsupported on this OS".to_string()
    );
    assert_eq!(windows_version_text(10, 0), "10.0".to_string());
}

#[test]
fn parses_http_url_with_default_and_explicit_ports() {
    assert_eq!(
        parse_http_url("http://127.0.0.1/data.json").unwrap(),
        HttpUrl {
            host: "127.0.0.1".to_string(),
            port: 80,
            path: "/data.json".to_string(),
        }
    );
    assert_eq!(
        parse_http_url("http://localhost:8085/data.json").unwrap(),
        HttpUrl {
            host: "localhost".to_string(),
            port: 8085,
            path: "/data.json".to_string(),
        }
    );
}

#[test]
fn http_url_errors() {
    assert_eq!(parse_http_url("https://x/"), Err(HttpUrlError::MissingScheme));
    assert_eq!(parse_http_url("http:///p"), Err(HttpUrlError::EmptyHost));
    assert_eq!(parse_http_url("http://[::1/p"), Err(HttpUrlError::InvalidIpv6Host));
    assert_eq!(parse_http_url("http://[::1]x/p"), Err(HttpUrlError::InvalidPortSeparator));
    assert_eq!(parse_http_url("http://h:99999/p"), Err(HttpUrlError::InvalidPort));
    assert_eq!(
        parse_http_url("http://[::1]:8085").unwrap(),
        HttpUrl {
            host: "::1".to_string(),
            port: 8085,
            path: "/".to_string(),
        }
    );
}

#[test]
fn parses_chunked_http_response() {
    let response =
        b"HTTP/1.1 200 OK\r\nTransfer-Encoding: chunked\r\n\r\n7\r\n{\"a\":1}\r\n0\r\n\r\n";

    let body = parse_http_response(response).unwrap();

    assert_eq!(body, r#"{"a":1}"#);
}

#[test]
fn http_response_errors() {
    assert_eq!(
        parse_http_response(b"HTTP/1.1 404 Not Found\r\n\r\n"),
        Err(HttpResponseError::Status(404))
    );
    assert_eq!(parse_http_response(b"HTTP/1.1 200 OK\r\n"), Err(HttpResponseError::MissingHeaders));
    assert_eq!(
        parse_http_response(b"HTTP/1.1 200 OK\r\nContent-Length: 2\r\n\r\nok").unwrap(),
        "ok".to_string()
    );
    assert_eq!(decode_chunked_body(b"zz\r\n"), Err(HttpResponseError::ChunkSizeNotHex));
    assert_eq!(decode_chunked_body(b"5\r\nab"), Err(HttpResponseError::ChunkExceedsResponse));
}

#[test]
fn lhm_http_missing_provider_is_non_fatal_by_default() {
    let config = WindowsLhmHttpConfig {
        enabled: true,
        ..WindowsLhmHttpConfig::default_for_platform(false)
    };
    let discovery = WindowsLhmHttpCollector::discover_summary(&config, LhmQueryOutcome::Unavailable(None));
    assert!(!discovery.supported);
    assert_eq!(discovery.status, "missing_provider");
}

#[test]
fn lhm_http_require_provider_marks_missing_provider_as_failure() {
    let config = WindowsLhmHttpConfig {
        enabled: true,
        require_provider: true,
        ..WindowsLhmHttpConfig::default_for_platform(false)
    };
    let discovery = WindowsLhmHttpCollector::discover_summary(&config, LhmQueryOutcome::Unavailable(None));
    assert_eq!(discovery.status, "missing_required_provider");
    let discovery = WindowsLhmHttpCollector::discover_summary(&config, LhmQueryOutcome::Sensors(4, None));
    assert_eq!(discovery.status, "available");
    assert_eq!(discovery.sensor_count, 4);
}

#[test]
fn powershell_values_are_single_quoted() {
    assert_eq!(powershell_single_quoted("root\\LHM"), "'root\\LHM'".to_string());
    assert_eq!(powershell_single_quoted("it's"), "'it''s'".to_string());
    assert!(is_temperature_type(Some("Temperature")));
    assert!(!is_temperature_type(Some("Load")));
    assert!(!is_temperature_type(None));
}

#[test]
fn normalised_labels_are_clean_and_stable() {
    for raw in ["  CPU Core #1 ", "__Tctl/Tdie__", "Package id 0", "---", "", "GPU  Hot--Spot"] {
        let once = normalize_sensor_label(raw);
        assert_eq!(normalize_sensor_label(&once), once);
        assert!(once.chars().all(|c| c.is_ascii_lowercase() || c.is_ascii_digit() || c == '_'));
        assert!(!once.starts_with('_') && !once.ends_with('_') && !once.contains("__"));
        assert_eq!(once.is_empty(), !raw.chars().any(|c| c.is_ascii_alphanumeric()));
    }
    assert_eq!(normalize_sensor_label("Package id 0"), "package");
    assert_eq!(normalize_sensor_label("GPU  Hot--Spot"), "gpu_hot_spot");
}
