use telemon::config::{WindowsLhmHttpConfig, WindowsLhmWmiConfig};
use telemon::temperature::model::Component;
use telemon::windows::lhm_http::{
    http_temperature_readings, temperature_number_text, LhmHttpReadingName, LhmHttpSensorFacts,
    LhmQueryOutcome,
};
use telemon::windows::lhm_tree::{lhm_sensors, LhmHttpSensor, LhmNode, LhmNodeValue};
use telemon::windows::lhm_wmi::{
    map_component, normalize_lhm_sensor_label, wmi_temperature_readings, LhmWmiReadingName,
    LhmWmiSensorFacts, WindowsLhmWmiCollector,
};

fn plausible(value: f64) -> bool {
    value.is_finite() && (-100.0..=250.0).contains(&value)
}

fn celsius(value: &str) -> Option<f64> {
    temperature_number_text(value)?.parse::<f64>().ok()
}

/// A sensor of the HTTP tree: its path (the last name is the sensor's) and
/// its value text.
fn http_sensor(path: &[&str], value: &str) -> (LhmHttpSensorFacts, Option<f64>) {
    let parsed = celsius(value);
    (
        LhmHttpSensorFacts {
            path: path.iter().map(|part| part.to_string()).collect(),
            name: path.last().copied().unwrap_or("sensor").to_string(),
            value_valid: parsed.map(plausible).unwrap_or(false),
            value_is_zero: parsed == Some(0.0),
        },
        parsed,
    )
}

/// A node of the JSON tree as the library holds it.
fn lhm_node(json: &serde_json::Value) -> LhmNode {
    let field = |name: &str, alias: &str| json.get(name).or_else(|| json.get(alias)).cloned();
    LhmNode {
        text: field("text", "Text").and_then(|value| value.as_str().map(str::to_string)),
        value: match field("value", "Value") {
            None | Some(serde_json::Value::Null) => LhmNodeValue::Missing,
            Some(serde_json::Value::String(text)) => LhmNodeValue::Text(text),
            Some(serde_json::Value::Number(number)) => LhmNodeValue::Number(number.to_string()),
            Some(_) => LhmNodeValue::Other,
        },
        children: field("children", "Children")
            .and_then(|value| value.as_array().cloned())
            .unwrap_or_default()
            .iter()
            .map(lhm_node)
            .collect(),
    }
}

fn parse_lhm_data_json(text: &str) -> Vec<LhmHttpSensor> {
    let json: serde_json::Value = serde_json::from_str(text.trim()).unwrap();
    lhm_sensors(&lhm_node(&json))
}

/// The facts of a sensor of the tree, and its value in degrees.
fn tree_sensor(sensor: &LhmHttpSensor) -> (LhmHttpSensorFacts, Option<f64>) {
    let parsed = celsius(&sensor.value);
    (
        LhmHttpSensorFacts {
            path: sensor.path.clone(),
            name: sensor.name.clone(),
            value_valid: parsed.map(plausible).unwrap_or(false),
            value_is_zero: parsed == Some(0.0),
        },
        parsed,
    )
}

fn http_readings(
    config: &WindowsLhmHttpConfig,
    sensors: Vec<(LhmHttpSensorFacts, Option<f64>)>,
) -> Vec<(LhmHttpReadingName, f64)> {
    let facts: Vec<LhmHttpSensorFacts> = sensors.iter().map(|(facts, _)| facts.clone()).collect();
    http_temperature_readings(config, &facts)
        .into_iter()
        .map(|reading| {
            let value = sensors[reading.index].1.unwrap();
            (reading, value)
        })
        .collect()
}

fn http_config() -> WindowsLhmHttpConfig {
    WindowsLhmHttpConfig::default_for_platform(false)
}

#[test]
fn temperature_values_are_read_before_their_unit() {
    assert_eq!(temperature_number_text("47.6 °C"), Some("47.6".to_string()));
    assert_eq!(temperature_number_text(" 47,6 °c "), Some("47.6".to_string()));
    assert_eq!(temperature_number_text("approx 41 C"), Some("41".to_string()));
    assert_eq!(temperature_number_text("50.0 %"), None);
}

#[test]
fn parses_lhm_tree_and_emits_expected_temperature_readings() {
    let sensors = parse_lhm_data_json(
        r#"{
            "Text": "CFC",
            "Children": [
              {"Text": "AMD Ryzen 5 7600X", "Children": [
                {"Text": "Temperatures", "Children": [
                  {"Text": "Core (Tctl/Tdie)", "Value": "47.6 °C"},
                  {"Text": "Package", "Value": "43.8 °C"},
                  {"Text": "IOD Hotspot", "Value": "-359627300.0 °C"}
                ]}
              ]},
              {"Text": "NVIDIA GeForce RTX 4070 Ti SUPER", "Children": [
                {"Text": "Temperatures", "Children": [
                  {"Text": "GPU Core", "Value": "34.0 °C"},
                  {"Text": "GPU Hot Spot", "Value": "43.7 °C"}
                ]}
              ]},
              {"Text": "NVMe Samsung SSD", "Children": [
                {"Text": "Temperatures", "Children": [
                  {"Text": "Composite Temperature", "Value": "46.0 °C"},
                  {"Text": "Thermal Sensor Low Limit", "Value": "0.0 °C"}
                ]}
              ]}
            ]
        }"#,
    );
    let readings = http_readings(&http_config(), sensors.iter().map(tree_sensor).collect());

    assert_eq!(readings.len(), 5);
    assert!(readings.iter().any(|(reading, value)| {
        reading.component == Component::Cpu
            && reading.sensor == "cpu_package_temp"
            && reading.instance == "core_tctl_tdie"
            && *value == 47.6
    }));
    assert!(readings.iter().any(|(reading, value)| {
        reading.component == Component::Cpu && reading.sensor == "cpu_package_temp" && *value == 43.8
    }));
    assert!(readings.iter().any(|(reading, value)| {
        reading.component == Component::Gpu && reading.sensor == "gpu_hotspot_temp" && *value == 43.7
    }));
    assert!(readings.iter().any(|(reading, value)| {
        reading.component == Component::Storage
            && reading.sensor == "nvme_composite_temp"
            && *value == 46.0
    }));
}

#[test]
fn collect_emits_metrics_from_available_http_provider() {
    let readings = http_readings(
        &http_config(),
        vec![http_sensor(&["CFC", "AMD Ryzen 5 7600X", "Temperatures", "Package"], "67.0 °C")],
    );
    assert_eq!(readings.len(), 1);
    assert_eq!(readings[0].0.sensor, "cpu_package_temp");
    assert_eq!(readings[0].0.component, Component::Cpu);
    assert_eq!(readings[0].1, 67.0);
}

#[test]
fn disambiguates_duplicate_sensor_names_per_component() {
    let readings = http_readings(
        &http_config(),
        vec![
            http_sensor(&["AMD Ryzen", "Temperatures", "Core #1"], "61.0 °C"),
            http_sensor(&["AMD Ryzen", "Temperatures", "Core #1"], "62.0 °C"),
            http_sensor(&["NVIDIA GeForce", "Temperatures", "GPU Core"], "40.0 °C"),
        ],
    );
    assert_eq!(readings[0].0.sensor, "cpu_core_temp");
    assert_eq!(readings[0].0.instance, "core_1");
    assert_eq!(readings[1].0.sensor, "cpu_core_temp");
    assert_eq!(readings[1].0.instance, "core_1_2");
    assert_eq!(readings[2].0.sensor, "gpu_edge_temp");
}

#[test]
fn skips_unknown_sensors_by_default() {
    let readings = http_readings(
        &http_config(),
        vec![http_sensor(&["Mystery Device", "Temperature #1"], "35.0 °C")],
    );
    assert!(readings.is_empty());
    let config = WindowsLhmHttpConfig {
        include_unknown_sensors: true,
        ..http_config()
    };
    let readings = http_readings(&config, vec![http_sensor(&["Mystery Device", "Temperature #1"], "35.0 °C")]);
    assert_eq!(readings.len(), 1);
}

#[test]
fn lhm_http_applies_allowlist_and_denylist() {
    let config = WindowsLhmHttpConfig {
        sensor_allowlist: vec!["package".to_string(), "core_1".to_string()],
        sensor_denylist: vec!["core_1".to_string()],
        ..http_config()
    };
    let readings = http_readings(
        &config,
        vec![
            http_sensor(&["AMD Ryzen", "Temperatures", "Package"], "67.0 °C"),
            http_sensor(&["AMD Ryzen", "Temperatures", "Core #1"], "61.0 °C"),
            http_sensor(&["AMD Ryzen", "Temperatures", "Core #2"], "62.0 °C"),
        ],
    );
    assert_eq!(readings.len(), 1);
    assert_eq!(readings[0].0.sensor, "cpu_package_temp");
}

#[test]
fn filters_non_temperature_implausible_and_zero_placeholder_values() {
    let readings = http_readings(
        &http_config(),
        vec![
            http_sensor(&["AMD Ryzen", "Load", "CPU Total"], "50.0 %"),
            http_sensor(&["AMD Ryzen", "Temperatures", "Package"], "300.0 °C"),
            http_sensor(&["NVMe Samsung", "Temperatures", "Thermal Low"], "0.0 °C"),
            http_sensor(&["AMD Ryzen", "Temperatures", "Core #1"], "61.0 °C"),
        ],
    );
    assert_eq!(readings.len(), 1);
    assert_eq!(readings[0].0.sensor, "cpu_core_temp");
    assert_eq!(readings[0].0.instance, "core_1");
}

// ---------------------------------------------------------------------------
// WMI
// ---------------------------------------------------------------------------

fn wmi_sensor(hardware_type: &str, hardware_name: &str, name: &str, sensor_type: &str, value: f64) -> LhmWmiSensorFacts {
    LhmWmiSensorFacts {
        hardware_type: Some(hardware_type.to_string()),
        hardware_name: Some(hardware_name.to_string()),
        name: Some(name.to_string()),
        sensor_type: Some(sensor_type.to_string()),
        value_valid: plausible(value),
    }
}

fn wmi_readings(config: &WindowsLhmWmiConfig, rows: Vec<LhmWmiSensorFacts>) -> Vec<LhmWmiReadingName> {
    wmi_temperature_readings(config, &rows)
}

#[test]
fn emits_amd_cpu_package_temperature() {
    let readings = wmi_readings(
        &WindowsLhmWmiConfig::default(),
        vec![wmi_sensor("Cpu", "AMD Ryzen 5 7600X", "CPU Package", "Temperature", 67.0)],
    );
    assert_eq!(readings.len(), 1);
    assert_eq!(readings[0].sensor, "package");
    assert_eq!(readings[0].component, Component::Cpu);
    assert_eq!(readings[0].index, 0);
}

#[test]
fn normalizes_core_temperature_and_disambiguates_duplicates() {
    let readings = wmi_readings(
        &WindowsLhmWmiConfig::default(),
        vec![
            wmi_sensor("Cpu", "AMD Ryzen", "Core #1", "Temperature", 61.0),
            wmi_sensor("Cpu", "AMD Ryzen", "Core #1", "Temperature", 62.0),
            wmi_sensor("GpuNvidia", "NVIDIA", "GPU Core", "Temperature", 40.0),
            wmi_sensor("Motherboard", "Board", "Temperature #1", "Temperature", 35.0),
        ],
    );
    assert_eq!(readings[0].sensor, "core_1");
    assert_eq!(readings[1].sensor, "core_1_2");
    assert_eq!(readings[2].sensor, "core");
    assert_eq!(readings[3].sensor, "temp1");
}

#[test]
fn lhm_wmi_skips_unknown_sources_by_default() {
    let readings = wmi_readings(
        &WindowsLhmWmiConfig::default(),
        vec![wmi_sensor("Mystery", "Unknown", "Temperature #1", "Temperature", 35.0)],
    );
    assert!(readings.is_empty());
}

#[test]
fn lhm_wmi_applies_allowlist_and_denylist() {
    let config = WindowsLhmWmiConfig {
        sensor_allowlist: vec!["package".to_string(), "core_1".to_string()],
        sensor_denylist: vec!["core_1".to_string()],
        ..WindowsLhmWmiConfig::default()
    };
    let readings = wmi_readings(
        &config,
        vec![
            wmi_sensor("Cpu", "AMD Ryzen", "CPU Package", "Temperature", 67.0),
            wmi_sensor("Cpu", "AMD Ryzen", "Core #1", "Temperature", 61.0),
            wmi_sensor("Cpu", "AMD Ryzen", "Core #2", "Temperature", 62.0),
        ],
    );
    assert_eq!(readings.len(), 1);
    assert_eq!(readings[0].sensor, "package");
}

#[test]
fn filters_non_temperature_and_implausible_values() {
    let readings = wmi_readings(
        &WindowsLhmWmiConfig::default(),
        vec![
            wmi_sensor("Cpu", "AMD Ryzen", "CPU Total", "Load", 50.0),
            wmi_sensor("Cpu", "AMD Ryzen", "CPU Package", "Temperature", f64::NAN),
            wmi_sensor("Cpu", "AMD Ryzen", "CPU Package", "Temperature", 300.0),
            wmi_sensor("Cpu", "AMD Ryzen", "Core #1", "Temperature", 61.0),
        ],
    );
    assert_eq!(readings.len(), 1);
    assert_eq!(readings[0].sensor, "core_1");
    assert_eq!(readings[0].index, 3);
}

#[test]
fn lhm_wmi_missing_provider_is_non_fatal_by_default() {
    let config = WindowsLhmWmiConfig {
        enabled: true,
        ..WindowsLhmWmiConfig::default()
    };
    let discovery = WindowsLhmWmiCollector::discover_summary(
        &config,
        LhmQueryOutcome::Unavailable(Some("namespace not found".to_string())),
    );
    assert!(!discovery.supported);
    assert_eq!(discovery.status, "missing_provider");
    assert_eq!(discovery.message, Some("namespace not found".to_string()));
}

#[test]
fn lhm_wmi_require_provider_marks_missing_provider_as_failure() {
    let config = WindowsLhmWmiConfig {
        enabled: true,
        require_provider: true,
        ..WindowsLhmWmiConfig::default()
    };
    let discovery = WindowsLhmWmiCollector::discover_summary(&config, LhmQueryOutcome::Unavailable(None));
    assert_eq!(discovery.status, "missing_required_provider");
}

#[test]
fn wmi_components_and_labels() {
    assert_eq!(map_component(Some("Cpu"), Some("AMD Ryzen")), Component::Cpu);
    assert_eq!(map_component(Some("GpuNvidia"), None), Component::Gpu);
    assert_eq!(map_component(None, None), Component::Unknown);
    assert_eq!(normalize_lhm_sensor_label("CPU Package"), "package");
    assert_eq!(normalize_lhm_sensor_label("Temperature #2"), "temp2");
}

#[test]
fn tree_sensors_are_named_by_their_path_in_depth_first_order() {
    let sensors = parse_lhm_data_json(
        r#"{"Text": " Root ", "Value": "", "Children": [
            {"Text": "", "Value": 41.5, "Children": [{"text": "Fan", "value": " 900 RPM "}]},
            {"Text": "Load", "Value": true},
            {"Text": "Clock", "Value": "  "}
        ]}"#,
    );
    assert_eq!(
        sensors,
        vec![
            LhmHttpSensor {
                path: vec!["Root".to_string()],
                name: "sensor".to_string(),
                value: "41.5".to_string(),
            },
            LhmHttpSensor {
                path: vec!["Root".to_string(), "Fan".to_string()],
                name: "Fan".to_string(),
                value: "900 RPM".to_string(),
            },
        ]
    );
}
