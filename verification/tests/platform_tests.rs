use telemon::fake::FakeCollector;
use telemon::gpu::nvidia::{
    c_string_from_buffer, classify_optional_return, clock_sensor, gpu_device_id,
    library_candidate_names, performance_state_label, throttle_reason_states, utilization_sensor,
    validate_memory, NvidiaError, NvidiaMemory, NvidiaMemoryInspection, NvidiaNvmlDiscovery,
    NvmlCallError, NvmlLoadError, NvmlProbe, NvmlReturnKind,
};
use telemon::macos::exact_temperature_experimental::MacosExactTemperatureExperimentalCollector;
use telemon::macos::macmon::{
    available_clock_entries, macmon_collect_status, macmon_discover_summary, normalize_bytes_pair,
    soc_identity_labels, MacmonCounters, MacmonPlatformProvider, MacmonStaticInfo,
};
use telemon::macos::thermal_provider::{
    DefaultMacosThermalProvider, MacosThermalProvider, MacosThermalState,
};
use telemon::macos::thermal_state::{thermal_state_flags, MacosThermalStateCollector};
use telemon::config::{MacosExactTemperatureExperimentalConfig, MacosThermalStateConfig, SystemConfig};
use telemon::system::{
    cpu_usage_delta, linux_meminfo_bytes, linux_memory_available_bytes, parse_linux_cpu_index,
    linux_cpu_times_fit, parse_linux_cpu_times, proc_cpuinfo_frequency_entries, published_cpu_count,
    sort_cpu_frequency_samples, system_discover_summary, used_memory_bytes, DefaultSystemProvider,
    LinuxCpuTimes, LINUX_CPUFREQ_SOURCE, LINUX_PROC_CPUINFO_SOURCE,
};

// ---------------------------------------------------------------------------
// NVIDIA
// ---------------------------------------------------------------------------

#[test]
fn validates_memory_consistency() {
    assert_eq!(
        validate_memory(16, 4, 12),
        Some(NvidiaMemory {
            total_bytes: 16,
            used_bytes: 4,
            free_bytes: 12,
        })
    );
    assert_eq!(validate_memory(16, 17, 0), None);
    assert_eq!(validate_memory(16, 8, 9), None);
}

#[test]
fn configured_library_paths_precede_platform_defaults() {
    let configured = ["/opt/nvidia/libnvidia-ml.so".to_string()];
    let candidates = library_candidate_names(&configured, "linux");
    assert_eq!(candidates.first().unwrap(), "/opt/nvidia/libnvidia-ml.so");
    assert_eq!(candidates[1], "libnvidia-ml.so.1");
    assert_eq!(candidates[2], "libnvidia-ml.so");

    let candidates = library_candidate_names(&configured, "windows");
    assert_eq!(candidates.first().unwrap(), "/opt/nvidia/libnvidia-ml.so");
    assert_eq!(candidates[1], "nvml.dll");
}

#[test]
fn nvidia_labels_and_sensors() {
    assert_eq!(gpu_device_id(3), "gpu3".to_string());
    assert_eq!(performance_state_label(0), "P0".to_string());
    assert_eq!(performance_state_label(12), "P12".to_string());
    assert_eq!(clock_sensor("memory"), "gpu_memory_clock");
    assert_eq!(clock_sensor("graphics"), "gpu_core_clock");
    assert_eq!(utilization_sensor("memory"), "gpu_memory_utilization");
    assert_eq!(utilization_sensor("gpu"), "gpu_utilization");
    assert_eq!(throttle_reason_states(0x20), (true, false, false));
    assert_eq!(throttle_reason_states(0x04), (false, true, false));
    assert_eq!(throttle_reason_states(0x01), (false, false, false));
}

#[test]
fn nvml_strings_and_return_codes() {
    assert_eq!(c_string_from_buffer(b"Tesla T4\0junk"), Some("Tesla T4".to_string()));
    assert_eq!(c_string_from_buffer(b"\0"), None);
    assert_eq!(classify_optional_return(0), NvmlReturnKind::Success);
    assert_eq!(classify_optional_return(3), NvmlReturnKind::Unavailable);
    assert_eq!(classify_optional_return(6), NvmlReturnKind::Unavailable);
    assert_eq!(classify_optional_return(999), NvmlReturnKind::Failed);
}

#[test]
fn missing_nvml_emits_unsupported_status_without_failure() {
    let error = NvidiaError::from_load_error(NvmlLoadError::LibraryNotFound {
        candidates: vec!["libnvidia-ml.so.1".to_string()],
        errors: vec!["not found".to_string()],
    });
    assert_eq!(error.status(), "library_missing");
    assert!(!error.library_loaded());
    let discovery = NvidiaNvmlDiscovery::from_probe(NvmlProbe::LoadFailed(error, "missing".to_string()));
    assert!(discovery.enabled);
    assert!(!discovery.supported);
    assert!(!discovery.library_loaded);
    assert_eq!(discovery.status, "library_missing");
}

#[test]
fn no_devices_is_supported_and_up_without_gpu_metrics() {
    let discovery = NvidiaNvmlDiscovery::from_probe(NvmlProbe::Counted(0));
    assert!(discovery.supported);
    assert_eq!(discovery.status, "no_devices");
    let discovery = NvidiaNvmlDiscovery::from_probe(NvmlProbe::Counted(2));
    assert_eq!(discovery.status, "available");
    assert_eq!(discovery.device_count, 2);
    let discovery = NvidiaNvmlDiscovery::from_probe(NvmlProbe::Disabled);
    assert!(!discovery.enabled);
    assert_eq!(discovery.status, "disabled");
}

#[test]
fn nvml_call_errors_are_reported_as_errors() {
    let call = NvmlCallError {
        operation: "nvmlInit_v2",
        code: 9,
        message: "Driver Not Loaded".to_string(),
    };
    assert_eq!(NvidiaError::init_failed(call.clone()).status(), "unsupported");
    let error = NvidiaError::from_call_error(call);
    assert_eq!(error.status(), "error");
    assert!(error.library_loaded());
    let inspection = NvidiaMemoryInspection::from_memory(NvidiaMemory {
        total_bytes: 8,
        used_bytes: 3,
        free_bytes: 5,
    });
    assert_eq!(inspection.free_bytes, 5);
}

// ---------------------------------------------------------------------------
// macOS
// ---------------------------------------------------------------------------

#[test]
fn state_labels_are_stable() {
    assert_eq!(MacosThermalState::Nominal.label(), "nominal");
    assert_eq!(MacosThermalState::Fair.label(), "fair");
    assert_eq!(MacosThermalState::Serious.label(), "serious");
    assert_eq!(MacosThermalState::Critical.label(), "critical");
    assert_eq!(MacosThermalState::Unknown.label(), "unknown");
}

#[test]
fn state_numeric_values_match_contract() {
    assert_eq!(MacosThermalState::Unknown.numeric_level() as f64, -1.0);
    assert_eq!(MacosThermalState::Nominal.numeric_level() as f64, 0.0);
    assert_eq!(MacosThermalState::Fair.numeric_level() as f64, 1.0);
    assert_eq!(MacosThermalState::Serious.numeric_level() as f64, 2.0);
    assert_eq!(MacosThermalState::Critical.numeric_level() as f64, 3.0);
}

#[test]
fn process_info_values_map_to_states() {
    assert_eq!(MacosThermalState::from_process_info_value(0), MacosThermalState::Nominal);
    assert_eq!(MacosThermalState::from_process_info_value(3), MacosThermalState::Critical);
    assert_eq!(MacosThermalState::from_process_info_value(4), MacosThermalState::Unknown);
}

#[test]
fn one_hot_emits_all_states() {
    let flags = thermal_state_flags(MacosThermalState::Fair);
    assert_eq!(flags.len(), 5);
    for state in MacosThermalState::all() {
        assert!(flags
            .iter()
            .any(|flag| flag.labels.get("state") == Some(state.label().to_string())));
    }
    assert!(flags
        .iter()
        .all(|flag| flag.labels.get("source") == Some("macos_processinfo".to_string())));
}

#[test]
fn one_hot_has_exactly_one_active_state() {
    let flags = thermal_state_flags(MacosThermalState::Serious);
    assert_eq!(flags.iter().filter(|flag| flag.active).count(), 1);
    assert!(flags
        .iter()
        .any(|flag| flag.active && flag.labels.get("state") == Some("serious".to_string())));
}

#[test]
fn non_macos_collector_reports_unsupported() {
    let enabled = MacosThermalStateConfig { enabled: true };
    assert_eq!(
        MacosThermalStateCollector::discover_summary(&enabled, false),
        "unsupported on this OS".to_string()
    );
    assert_eq!(
        MacosThermalStateCollector::discover_summary(&enabled, true),
        "available".to_string()
    );
    assert_eq!(
        MacosThermalStateCollector::discover_summary(&MacosThermalStateConfig { enabled: false }, true),
        "disabled".to_string()
    );
    let mut collector = MacosThermalStateCollector::with_provider(DefaultMacosThermalProvider::new());
    assert_eq!(collector.errors_total, 0);
    collector.record_failure();
    assert_eq!(collector.errors_total, 1);
    let _ = MacosThermalStateCollector::new(enabled);
}

#[test]
fn reports_unsupported_without_temperature_metrics() {
    let collector =
        MacosExactTemperatureExperimentalCollector::new(MacosExactTemperatureExperimentalConfig::default());
    assert_eq!(collector.errors_total, 0);
    assert_eq!(
        collector.unsupported_message(),
        "macos_exact_temperature_experimental is not implemented".to_string()
    );
    assert_eq!(
        MacosExactTemperatureExperimentalCollector::discover_summary(
            &MacosExactTemperatureExperimentalConfig { enabled: true }
        ),
        "not implemented".to_string()
    );
}

#[test]
fn converts_mhz_to_hertz() {
    let entries = available_clock_entries("cpu", Some("efficiency"), None, &[600, 0, 2000]);
    assert_eq!(entries.len(), 2);
    assert_eq!(entries[0].hertz, 600_000_000);
    assert_eq!(entries[0].labels.get("state"), Some("0".to_string()));
    assert_eq!(entries[0].labels.get("cluster"), Some("efficiency".to_string()));
    assert_eq!(entries[1].hertz, 2_000_000_000);
    assert_eq!(entries[1].labels.get("state"), Some("2".to_string()));
    assert_eq!(entries[1].labels.get("gpu_index"), None);
}

#[test]
fn renders_static_metrics() {
    let info = MacmonStaticInfo {
        mac_model: "Mac14,2".to_string(),
        chip_name: "Apple M2".to_string(),
        efficiency_cpu_cores: 4,
        performance_cpu_cores: 4,
        efficiency_cpu_frequencies_mhz: vec![600, 912],
        performance_cpu_frequencies_mhz: vec![660, 3504],
        gpu_cores: 10,
        gpu_frequencies_mhz: vec![389, 1398],
    };
    let labels = soc_identity_labels(&info).unwrap();
    assert_eq!(labels.get("component"), Some("soc".to_string()));
    assert_eq!(labels.get("chip_name"), Some("Apple M2".to_string()));
    assert!(soc_identity_labels(&MacmonStaticInfo::default()).is_none());
    let gpu = available_clock_entries("gpu", None, Some("0"), &info.gpu_frequencies_mhz);
    assert_eq!(gpu[1].hertz, 1_398_000_000);
    assert_eq!(gpu[1].labels.get("gpu_index"), Some("0".to_string()));
}

#[test]
fn invalid_fields_are_skipped_without_dropping_snapshot() {
    let pair = normalize_bytes_pair(Some(100), Some(150), false);
    assert_eq!(pair.total, Some(100));
    assert_eq!(pair.used, None);
    assert!(pair.used_invalid);
    assert!(!pair.total_invalid);
    let pair = normalize_bytes_pair(Some(0), Some(0), false);
    assert_eq!(pair.total, None);
    assert!(pair.total_invalid);
    assert!(pair.used_invalid);
    let pair = normalize_bytes_pair(Some(0), Some(0), true);
    assert_eq!(pair.total, Some(0));
    assert_eq!(pair.used, Some(0));
}

#[test]
fn stale_cache_reports_down_without_dynamic_metrics() {
    let status = macmon_collect_status(true, true, false, 3, None);
    assert!(!status.up);
    assert!(!status.success);
    assert_eq!(status.error_message, Some("macos_macmon snapshot is stale".to_string()));
    let status = macmon_collect_status(true, false, false, 0, None);
    assert!(status.success);
    assert_eq!(status.error_message, Some("macos_macmon snapshot is not ready yet".to_string()));
    let status = macmon_collect_status(true, true, true, 0, Some("old".to_string()));
    assert!(status.up);
    assert_eq!(status.error_message, None);
    let status = macmon_collect_status(true, false, false, 1, Some("boom".to_string()));
    assert_eq!(status.error_message, Some("boom".to_string()));
}

#[test]
fn unsupported_platform_reports_unsupported_down() {
    let status = macmon_collect_status(false, false, false, 0, None);
    assert!(!status.up);
    assert!(status.success);
    assert_eq!(
        status.error_message,
        Some("macos_macmon is unsupported on this OS or architecture".to_string())
    );
    assert!(MacmonPlatformProvider::new().is_err());
    assert_eq!(
        macmon_discover_summary(true, false),
        "unsupported on this OS or architecture".to_string()
    );
    assert_eq!(macmon_discover_summary(false, true), "disabled".to_string());
}

#[test]
fn sampler_reinitializes_after_consecutive_errors() {
    let mut counters = MacmonCounters::default();
    assert!(!counters.record_sample_error(3));
    assert!(!counters.record_sample_error(3));
    assert!(counters.record_sample_error(3));
    assert_eq!(counters.errors_total, 3);
    assert_eq!(counters.consecutive_errors, 0);
    assert_eq!(counters.reinitializations_total, 1);
    counters.record_init_error();
    assert_eq!(counters.consecutive_errors, 1);
    counters.record_success();
    assert_eq!(counters.consecutive_errors, 0);
    assert_eq!(counters.errors_total, 4);
}

// ---------------------------------------------------------------------------
// System
// ---------------------------------------------------------------------------

#[test]
fn parses_proc_stat_cpu_usage_delta() {
    let previous = parse_linux_cpu_times("cpu  10 0 10 80 0 0 0 0 0 0\n").unwrap();
    let current = parse_linux_cpu_times("cpu  20 0 20 100 0 0 0 0 0 0\n").unwrap();
    let (busy, total) = cpu_usage_delta(previous, current).unwrap();
    assert_eq!(busy as f64 / total as f64, 0.5);
}

#[test]
fn proc_stat_reads_idle_and_total() {
    let times = parse_linux_cpu_times("intr 1\ncpu  1 2 3 4 5 6\ncpu0 1 1 1 1\n").unwrap();
    assert_eq!(times, LinuxCpuTimes { idle: 9, total: 21 });
    assert_eq!(parse_linux_cpu_times("cpu  1 2 3\n"), None);
    assert_eq!(parse_linux_cpu_times("cpu  1 2 x 4\n"), None);
    assert_eq!(parse_linux_cpu_times("nothing here\n"), None);
}

#[test]
fn first_default_linux_cpu_sample_is_omitted() {
    let mut provider = DefaultSystemProvider::new();
    let first = provider.observe_cpu_times(LinuxCpuTimes { idle: 80, total: 100 });
    assert!(first.is_none());
    let second = provider.observe_cpu_times(LinuxCpuTimes { idle: 100, total: 140 });
    assert_eq!(second, Some((20, 40)));
    assert_eq!(
        cpu_usage_delta(LinuxCpuTimes { idle: 0, total: 50 }, LinuxCpuTimes { idle: 0, total: 50 }),
        None
    );
}

#[test]
fn invalid_memory_values_do_not_emit_used_memory() {
    assert_eq!(used_memory_bytes(Some(6), Some(16)), None);
    assert_eq!(used_memory_bytes(Some(16), Some(6)), Some(10));
    assert_eq!(used_memory_bytes(None, Some(6)), None);
    assert_eq!(published_cpu_count(Some(0)), None);
    assert_eq!(published_cpu_count(Some(10)), Some(10));
}

#[test]
fn meminfo_values_are_kib() {
    let text = "MemTotal:       16000 kB\nMemFree:         4000 kB\n";
    assert_eq!(linux_meminfo_bytes(text, "MemTotal:"), Some(16_000 * 1024));
    assert_eq!(linux_meminfo_bytes(text, "Missing:"), None);
    assert_eq!(linux_memory_available_bytes(text), Some(4000 * 1024));
    let text = "MemAvailable:    5000 kB\nMemFree:         4000 kB\n";
    assert_eq!(linux_memory_available_bytes(text), Some(5000 * 1024));
}

#[test]
fn parses_linux_cpufreq_samples_as_logical_cpu_frequency() {
    assert_eq!(parse_linux_cpu_index("cpu10"), Some(10));
    assert_eq!(parse_linux_cpu_index("cpu2"), Some(2));
    assert_eq!(parse_linux_cpu_index("notcpu"), None);
    assert_eq!(parse_linux_cpu_index("cpufreq"), None);
    let sorted = sort_cpu_frequency_samples(vec![(10, 2_800.0_f64), (2, 1_700.0)]);
    assert_eq!(sorted, vec![(2, 1_700.0), (10, 2_800.0)]);
    assert_eq!(LINUX_CPUFREQ_SOURCE, "linux_cpufreq");
}

#[test]
fn parses_proc_cpuinfo_frequency_fallback_samples() {
    let entries = proc_cpuinfo_frequency_entries(
        "processor   : 1\ncpu MHz     : 3512.345\n\nprocessor   : 0\ncpu MHz     : 800.000\n",
    );
    assert_eq!(
        entries,
        vec![(1, "3512.345".to_string()), (0, "800.000".to_string())]
    );
    let parsed: Vec<(u32, f64)> = entries
        .into_iter()
        .map(|(cpu, text)| (cpu, text.parse::<f64>().unwrap()))
        .collect();
    let sorted = sort_cpu_frequency_samples(parsed);
    assert_eq!(sorted, vec![(0, 800.0), (1, 3512.345)]);
    assert_eq!(LINUX_PROC_CPUINFO_SOURCE, "linux_proc_cpuinfo");
}

#[test]
fn cpu_sort_is_stable_for_equal_indices() {
    let sorted = sort_cpu_frequency_samples(vec![(1, "b"), (0, "a"), (1, "c"), (0, "d")]);
    assert_eq!(sorted, vec![(0, "a"), (0, "d"), (1, "b"), (1, "c")]);
}

#[test]
fn cpu_disabled_omits_frequency_samples() {
    let config = SystemConfig::default();
    assert!(config.cpu_enabled);
    assert_eq!(system_discover_summary(&config), "available".to_string());
    let disabled = SystemConfig {
        enabled: false,
        ..SystemConfig::default()
    };
    assert_eq!(system_discover_summary(&disabled), "disabled".to_string());
}

// ---------------------------------------------------------------------------
// Fake collector
// ---------------------------------------------------------------------------

/// The fake collector's metrics are made in app/; this checks the labels
/// the library gives its reading.
#[test]
fn fake_collector_emits_expected_metric_names() {
    let collector = FakeCollector::new();
    assert_eq!(collector.name(), "fake");
    assert_eq!(collector.errors_total, 0);
    let labels = collector.reading_labels();
    assert_eq!(labels.get("component"), Some("test".to_string()));
    assert_eq!(labels.get("sensor"), Some("fake".to_string()));
    assert_eq!(labels.get("source"), Some("fake".to_string()));
}

struct FakeProvider {
    state: Option<MacosThermalState>,
}

impl MacosThermalProvider for FakeProvider {
    fn thermal_state(&self) -> Result<MacosThermalState, String> {
        self.state.ok_or_else(|| "no reading".to_string())
    }
}

#[test]
fn collector_uses_provider_state() {
    let mut collector = MacosThermalStateCollector::with_provider(FakeProvider {
        state: Some(MacosThermalState::Critical),
    });
    assert_eq!(collector.collect_state(), Ok(MacosThermalState::Critical));
    assert_eq!(collector.errors_total, 0);
    assert_eq!(MacosThermalState::Critical.numeric_level(), 3);

    let mut failing = MacosThermalStateCollector::with_provider(FakeProvider { state: None });
    assert_eq!(failing.collect_state(), Err("no reading".to_string()));
    assert_eq!(failing.errors_total, 1);

    let mut default = MacosThermalStateCollector::new(MacosThermalStateConfig { enabled: true });
    assert_eq!(
        default.collect_state(),
        Err("macos_thermal_state is unsupported on this OS".to_string())
    );
    assert_eq!(default.errors_total, 1);
}

#[test]
fn nvidia_error_messages_name_their_details() {
    let missing = NvidiaError::LibraryNotFound {
        candidates: vec!["libnvidia-ml.so.1".to_string(), "a\"b".to_string()],
        errors: vec!["nope".to_string()],
    };
    assert_eq!(missing.message(), "NVML library not found; tried: [\"libnvidia-ml.so.1\", \"a\\\"b\"]");
    let none = NvidiaError::LibraryNotFound { candidates: Vec::new(), errors: Vec::new() };
    assert_eq!(none.message(), "NVML library not found; tried: []");
    let symbol = NvidiaError::SymbolNotFound {
        library: "libnvidia-ml.so".to_string(),
        symbol: "nvmlInit_v2",
        message: "undefined".to_string(),
    };
    assert_eq!(symbol.message(), "required NVML symbol nvmlInit_v2 not found in libnvidia-ml.so: undefined");
    let init = NvidiaError::InitFailed { code: 12, message: "driver".to_string() };
    assert_eq!(init.message(), "NVML initialization failed with code 12: driver");
    let call = NvidiaError::NvmlCall { operation: "nvmlDeviceGetCount_v2", code: 3, message: "x".to_string() };
    assert_eq!(call.message(), "NVML call nvmlDeviceGetCount_v2 failed with code 3: x");
    let index = NvidiaError::DeviceIndexOutOfRange { index: 4 };
    assert_eq!(index.message(), "NVIDIA device index 4 is out of range");
}

#[test]
fn recorded_readings_pass_through_and_failures_are_counted() {
    let mut collector = MacosThermalStateCollector::with_provider(DefaultMacosThermalProvider::new());
    assert_eq!(collector.record_reading(Ok(MacosThermalState::Serious)), Ok(MacosThermalState::Serious));
    assert_eq!(collector.errors_total, 0);
    assert_eq!(collector.record_reading(Err("sensor gone".to_string())), Err("sensor gone".to_string()));
    assert_eq!(collector.errors_total, 1);
    assert_eq!(collector.record_reading(Ok(MacosThermalState::Nominal)), Ok(MacosThermalState::Nominal));
    assert_eq!(collector.errors_total, 1);
}

#[test]
fn cpu_times_fit_when_their_sum_stays_in_u64() {
    assert!(linux_cpu_times_fit("cpu  10 0 10 80 0 0 0 0 0 0\n"));
    assert!(linux_cpu_times_fit("no cpu line\n"));
    assert!(linux_cpu_times_fit("cpu  18446744073709551615 0 0 0\n"));
    assert!(!linux_cpu_times_fit("cpu  18446744073709551615 1 0 0\n"));
    assert!(linux_cpu_times_fit("cpu  18446744073709551615 1 0\n"));
}
