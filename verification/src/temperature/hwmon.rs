//! Linux hwmon chips: which files are temperature and fan channels, which
//! component a chip belongs to, how a sensor is named, which readings are
//! kept, and how duplicate sensor names are told apart.

use vstd::prelude::*;

use crate::temperature::model::{normalize_sensor_label, normalized_label, Component};
use crate::text::{
    all_radix_digits, chars_eq, chars_of, concat, contains, contains_chars, decimal, decimal_chars,
    ends_with, ends_with_chars, is_ascii_digit, lower_seq, slice_chars, starts_with,
    starts_with_chars, string_of, to_lower_chars, trim, trim_chars,
};

verus! {

pub const SOURCE: &'static str = "linux_hwmon";

// ---------------------------------------------------------------------------
// Channel files
// ---------------------------------------------------------------------------

/// The index of a channel file `<prefix><digits>_input`.
pub open spec fn channel_index_spec(name: Seq<char>, prefix: Seq<char>) -> Option<Seq<char>> {
    if starts_with(name, prefix) && name.len() >= prefix.len() + 6 && ends_with(name, "_input"@) {
        let mid = name.subrange(prefix.len() as int, name.len() - 6);
        if mid.len() > 0 && all_radix_digits(mid, 10) {
            Some(mid)
        } else {
            None
        }
    } else {
        None
    }
}

pub fn channel_index(name: &[char], prefix: &[char]) -> (r: Option<Vec<char>>)
    ensures
        match r {
            Some(v) => channel_index_spec(name@, prefix@) == Some(v@),
            None => channel_index_spec(name@, prefix@) is None,
        },
{
    let suffix = chars_of("_input");
    if !starts_with_chars(name, prefix) || name.len() < 6 || name.len() - 6 < prefix.len()
        || !ends_with_chars(name, &suffix) {
        return None;
    }
    let mid = slice_chars(name, prefix.len(), name.len() - 6);
    if mid.len() == 0 {
        return None;
    }
    let mut i: usize = 0;
    while i < mid.len()
        invariant
            0 <= i <= mid@.len(),
            mid@.len() > 0,
            starts_with(name@, prefix@),
            name@.len() >= prefix@.len() + 6,
            ends_with(name@, "_input"@),
            mid@ == name@.subrange(prefix@.len() as int, name@.len() - 6),
            forall|k: int| 0 <= k < i ==> crate::text::is_radix_digit(#[trigger] mid@[k], 10),
        decreases mid.len() - i,
    {
        if !is_ascii_digit(mid[i]) {
            assert(!crate::text::is_radix_digit(mid@[i as int], 10));
            return None;
        }
        i += 1;
    }
    Some(mid)
}

/// The index of a `temp<N>_input` file.
pub fn temp_input_index(file_name: &str) -> (r: Option<String>)
    ensures
        match r {
            Some(v) => channel_index_spec(file_name@, "temp"@) == Some(v@),
            None => channel_index_spec(file_name@, "temp"@) is None,
        },
{
    match channel_index(&chars_of(file_name), &chars_of("temp")) {
        Some(v) => Some(string_of(&v)),
        None => None,
    }
}

/// The index of a `fan<N>_input` file.
pub fn fan_input_index(file_name: &str) -> (r: Option<String>)
    ensures
        match r {
            Some(v) => channel_index_spec(file_name@, "fan"@) == Some(v@),
            None => channel_index_spec(file_name@, "fan"@) is None,
        },
{
    match channel_index(&chars_of(file_name), &chars_of("fan")) {
        Some(v) => Some(string_of(&v)),
        None => None,
    }
}

// ---------------------------------------------------------------------------
// Chips
// ---------------------------------------------------------------------------

/// A chip name as it is compared: trimmed and lower-cased.
pub open spec fn chip_key(chip_name: Seq<char>) -> Seq<char> {
    lower_seq(trim(chip_name))
}

pub open spec fn asus_ec_spec(chip: Seq<char>) -> bool {
    chip == "asusec"@ || chip == "asus_ec_sensors"@ || chip == "asus"@
}

pub open spec fn network_chip_spec(chip: Seq<char>) -> bool {
    starts_with(chip, "en"@) || contains(chip, "ethernet"@) || contains(chip, "iwlwifi"@)
        || contains(chip, "wifi"@) || contains(chip, "phy"@)
}

pub fn is_asus_ec_chip(chip: &[char]) -> (r: bool)
    ensures
        r == asus_ec_spec(chip@),
{
    chars_eq(chip, &chars_of("asusec")) || chars_eq(chip, &chars_of("asus_ec_sensors"))
        || chars_eq(chip, &chars_of("asus"))
}

pub fn is_network_chip(chip: &[char]) -> (r: bool)
    ensures
        r == network_chip_spec(chip@),
{
    starts_with_chars(chip, &chars_of("en")) || contains_chars(chip, &chars_of("ethernet"))
        || contains_chars(chip, &chars_of("iwlwifi")) || contains_chars(chip, &chars_of("wifi"))
        || contains_chars(chip, &chars_of("phy"))
}

/// The component a chip's temperatures belong to, by the chip's driver.
pub open spec fn component_for_chip_spec(chip_name: Seq<char>) -> Component {
    let chip = chip_key(chip_name);
    if chip == "coretemp"@ || chip == "k10temp"@ || chip == "zenpower"@ {
        Component::Cpu
    } else if chip == "amdgpu"@ {
        Component::Gpu
    } else if chip == "nvme"@ || chip == "drivetemp"@ {
        Component::Storage
    } else if chip == "acpitz"@ {
        Component::System
    } else if asus_ec_spec(chip) {
        Component::Motherboard
    } else if network_chip_spec(chip) {
        Component::Network
    } else {
        Component::Unknown
    }
}


/// The chips of CPU temperature drivers (Intel `coretemp`, AMD `k10temp`
/// and `zenpower`), in any case and with any whitespace around, are CPU
/// chips; `amdgpu` is a GPU, `nvme` and `drivetemp` storage, `acpitz` the
/// system.
pub proof fn lemma_known_chips(chip_name: Seq<char>)
    ensures
        ({
            let key = lower_seq(trim(chip_name));
            key == "coretemp"@ || key == "k10temp"@ || key == "zenpower"@
        }) ==> component_for_chip_spec(chip_name) == Component::Cpu,
        lower_seq(trim(chip_name)) == "amdgpu"@ ==> component_for_chip_spec(chip_name) == Component::Gpu,
        (lower_seq(trim(chip_name)) == "nvme"@ || lower_seq(trim(chip_name)) == "drivetemp"@)
            ==> component_for_chip_spec(chip_name) == Component::Storage,
        lower_seq(trim(chip_name)) == "acpitz"@ ==> component_for_chip_spec(chip_name) == Component::System,
{
    reveal_strlit("coretemp");
    reveal_strlit("k10temp");
    reveal_strlit("zenpower");
    reveal_strlit("amdgpu");
    reveal_strlit("nvme");
    reveal_strlit("drivetemp");
    reveal_strlit("acpitz");
    let key = lower_seq(trim(chip_name));
    if key == "amdgpu"@ {
        assert(key[0] == 'a' && key.len() == 6);
    }
    if key == "nvme"@ || key == "drivetemp"@ {
        assert(key[0] == 'n' || key[0] == 'd');
    }
    if key == "acpitz"@ {
        assert(key[1] == 'c' && key.len() == 6);
    }
}
fn chip_key_chars(chip_name: &str) -> (r: Vec<char>)
    ensures
        r@ == chip_key(chip_name@),
{
    to_lower_chars(&trim_chars(&chars_of(chip_name)))
}

pub fn component_for_chip(chip_name: &str) -> (r: Component)
    ensures
        r == component_for_chip_spec(chip_name@),
{
    let chip = chip_key_chars(chip_name);
    if chars_eq(&chip, &chars_of("coretemp")) || chars_eq(&chip, &chars_of("k10temp")) || chars_eq(
        &chip,
        &chars_of("zenpower"),
    ) {
        Component::Cpu
    } else if chars_eq(&chip, &chars_of("amdgpu")) {
        Component::Gpu
    } else if chars_eq(&chip, &chars_of("nvme")) || chars_eq(&chip, &chars_of("drivetemp")) {
        Component::Storage
    } else if chars_eq(&chip, &chars_of("acpitz")) {
        Component::System
    } else if is_asus_ec_chip(&chip) {
        Component::Motherboard
    } else if is_network_chip(&chip) {
        Component::Network
    } else {
        Component::Unknown
    }
}

/// Whether a chip's readings are taken: a known component, or unknown ones
/// are asked for.
pub fn chip_included(component: Component, include_unknown_sensors: bool) -> (r: bool)
    ensures
        r == (component != Component::Unknown || include_unknown_sensors),
{
    component != Component::Unknown || include_unknown_sensors
}

// ---------------------------------------------------------------------------
// Sensor names
// ---------------------------------------------------------------------------

/// The sensor a temperature channel is reported as, the instance it
/// stands for, and how sure the mapping is (in hundredths).
#[derive(Debug, Clone, PartialEq, Eq)]
pub struct TemperatureMapping {
    pub sensor: String,
    pub instance: String,
    pub confidence_percent: u8,
}

pub open spec fn mapping_spec(chip_name: Seq<char>, raw_label: Option<Seq<char>>, n: Seq<char>) -> (Seq<char>, Seq<char>, u8) {
    let chip = chip_key(chip_name);
    let raw = lower_seq(
        match raw_label {
            Some(l) => l,
            None => n,
        },
    );
    if chip == "coretemp"@ {
        if n == "package"@ {
            ("cpu_package_temp"@, "package"@, 99)
        } else if starts_with(n, "core_"@) {
            ("cpu_core_temp"@, n, 99)
        } else {
            ("cpu_temp"@, n, 85)
        }
    } else if chip == "k10temp"@ || chip == "zenpower"@ {
        if n == "tctl"@ || n == "tdie"@ || n == "package"@ {
            ("cpu_package_temp"@, n, 95)
        } else if starts_with(n, "ccd"@) {
            ("cpu_die_temp"@, n, 90)
        } else {
            ("cpu_temp"@, n, 80)
        }
    } else if chip == "nvme"@ {
        if n == "composite"@ {
            ("nvme_composite_temp"@, "composite"@, 99)
        } else {
            ("nvme_sensor_temp"@, n, 90)
        }
    } else if chip == "acpitz"@ {
        ("acpi_thermal_zone_temp"@, n, 75)
    } else if chip == "amdgpu"@ {
        if contains(n, "junction"@) || contains(n, "hotspot"@) {
            ("gpu_hotspot_temp"@, n, 90)
        } else if contains(n, "mem"@) {
            ("gpu_memory_temp"@, n, 85)
        } else {
            ("gpu_edge_temp"@, n, 90)
        }
    } else if network_chip_spec(chip) {
        if contains(raw, "phy"@) {
            ("network_phy_temp"@, "phy"@, 85)
        } else if contains(raw, "mac"@) {
            ("network_mac_temp"@, "mac"@, 85)
        } else {
            ("network_temp"@, n, 65)
        }
    } else if asus_ec_spec(chip) {
        if contains(n, "vrm"@) {
            ("vrm_temp"@, n, 90)
        } else {
            ("motherboard_temp"@, n, 75)
        }
    } else {
        (n, n, 50)
    }
}

fn mapping_of(sensor: &str, instance: &[char], confidence_percent: u8) -> (r: TemperatureMapping)
    ensures
        r.sensor@ == sensor@,
        r.instance@ == instance@,
        r.confidence_percent == confidence_percent,
{
    TemperatureMapping {
        sensor: string_of(&chars_of(sensor)),
        instance: string_of(instance),
        confidence_percent,
    }
}

/// How a temperature channel of a chip is named, from its label (when it
/// has one) and its normalised name.
pub fn temperature_mapping(chip_name: &str, raw_label: Option<&str>, normalized_sensor: &str) -> (r: TemperatureMapping)
    ensures
        ({
            let (sensor, instance, confidence) = mapping_spec(
                chip_name@,
                match raw_label {
                    Some(l) => Some(l@),
                    None => None,
                },
                normalized_sensor@,
            );
            r.sensor@ == sensor && r.instance@ == instance && r.confidence_percent == confidence
        }),
{
    let chip = chip_key_chars(chip_name);
    let n = chars_of(normalized_sensor);
    let raw = match raw_label {
        Some(l) => to_lower_chars(&chars_of(l)),
        None => to_lower_chars(&n),
    };
    if chars_eq(&chip, &chars_of("coretemp")) {
        if chars_eq(&n, &chars_of("package")) {
            mapping_of("cpu_package_temp", &chars_of("package"), 99)
        } else if starts_with_chars(&n, &chars_of("core_")) {
            mapping_of("cpu_core_temp", &n, 99)
        } else {
            mapping_of("cpu_temp", &n, 85)
        }
    } else if chars_eq(&chip, &chars_of("k10temp")) || chars_eq(&chip, &chars_of("zenpower")) {
        if chars_eq(&n, &chars_of("tctl")) || chars_eq(&n, &chars_of("tdie")) || chars_eq(
            &n,
            &chars_of("package"),
        ) {
            mapping_of("cpu_package_temp", &n, 95)
        } else if starts_with_chars(&n, &chars_of("ccd")) {
            mapping_of("cpu_die_temp", &n, 90)
        } else {
            mapping_of("cpu_temp", &n, 80)
        }
    } else if chars_eq(&chip, &chars_of("nvme")) {
        if chars_eq(&n, &chars_of("composite")) {
            mapping_of("nvme_composite_temp", &chars_of("composite"), 99)
        } else {
            mapping_of("nvme_sensor_temp", &n, 90)
        }
    } else if chars_eq(&chip, &chars_of("acpitz")) {
        mapping_of("acpi_thermal_zone_temp", &n, 75)
    } else if chars_eq(&chip, &chars_of("amdgpu")) {
        if contains_chars(&n, &chars_of("junction")) || contains_chars(&n, &chars_of("hotspot")) {
            mapping_of("gpu_hotspot_temp", &n, 90)
        } else if contains_chars(&n, &chars_of("mem")) {
            mapping_of("gpu_memory_temp", &n, 85)
        } else {
            mapping_of("gpu_edge_temp", &n, 90)
        }
    } else if is_network_chip(&chip) {
        if contains_chars(&raw, &chars_of("phy")) {
            mapping_of("network_phy_temp", &chars_of("phy"), 85)
        } else if contains_chars(&raw, &chars_of("mac")) {
            mapping_of("network_mac_temp", &chars_of("mac"), 85)
        } else {
            mapping_of("network_temp", &n, 65)
        }
    } else if is_asus_ec_chip(&chip) {
        if contains_chars(&n, &chars_of("vrm")) {
            mapping_of("vrm_temp", &n, 90)
        } else {
            mapping_of("motherboard_temp", &n, 75)
        }
    } else {
        TemperatureMapping {
            sensor: string_of(&n),
            instance: string_of(&n),
            confidence_percent: 50,
        }
    }
}

/// A confidence in hundredths as it is written in a label: two decimals.
pub open spec fn confidence_label_spec(percent: u8) -> Seq<char> {
    let p = if percent > 100 {
        100nat
    } else {
        percent as nat
    };
    decimal(p / 100) + seq!['.', crate::text::digit_char((p % 100) / 10), crate::text::digit_char(
        p % 10,
    )]
}

pub fn format_confidence(percent: u8) -> (r: String)
    ensures
        r@ == confidence_label_spec(percent),
{
    let p: u8 = if percent > 100 {
        100
    } else {
        percent
    };
    let mut out = decimal_chars((p / 100) as u64);
    out.push('.');
    out.push(crate::text::char_from_ascii((p % 100) / 10 + 48));
    out.push(crate::text::char_from_ascii(p % 10 + 48));
    string_of(&out)
}

// ---------------------------------------------------------------------------
// Readings
// ---------------------------------------------------------------------------

/// A temperature in millidegrees is plausible from -20 to 250 degrees,
/// and an NVMe limit sensor must be above zero.
pub open spec fn valid_temperature_spec(chip_name: Seq<char>, n: Seq<char>, milli: int) -> bool {
    -20000 <= milli <= 250000 && !(chip_key(chip_name) == "nvme"@ && contains(n, "limit"@)
        && milli <= 0)
}

pub fn valid_temperature_for_chip(chip_name: &str, normalized_sensor: &str, milli_celsius: i64) -> (r: bool)
    ensures
        r == valid_temperature_spec(chip_name@, normalized_sensor@, milli_celsius as int),
{
    if milli_celsius < -20000 || milli_celsius > 250000 {
        return false;
    }
    let chip = chip_key_chars(chip_name);
    let n = chars_of(normalized_sensor);
    if chars_eq(&chip, &chars_of("nvme")) && contains_chars(&n, &chars_of("limit"))
        && milli_celsius <= 0 {
        return false;
    }
    true
}

/// A critical or warning limit is kept from -100 to 250 degrees.
pub fn limit_in_range(milli_celsius: i64) -> (r: bool)
    ensures
        r == (-100000 <= milli_celsius <= 250000),
{
    -100000 <= milli_celsius && milli_celsius <= 250000
}

/// The `device_id` label of a reading of a chip.
pub open spec fn device_id_spec(component: Component, chip_name: Seq<char>, storage_id: Option<Seq<char>>) -> Seq<char> {
    match component {
        Component::Cpu => "cpu0"@,
        Component::Gpu => "gpu0"@,
        Component::Storage => match storage_id {
            Some(s) => s,
            None => "storage"@,
        },
        Component::Motherboard => "board"@,
        Component::Memory => "memory"@,
        Component::Network => "net:"@ + normalized_label(trim(chip_name)),
        Component::Cooling => "cooling"@,
        Component::System => "system"@,
        Component::Battery => "battery"@,
        Component::Unknown => "unknown:"@ + normalized_label(trim(chip_name)),
    }
}

pub fn hwmon_device_id(component: Component, chip_name: &str, storage_id: Option<&str>) -> (r: String)
    ensures
        r@ == device_id_spec(
            component,
            chip_name@,
            match storage_id {
                Some(s) => Some(s@),
                None => None,
            },
        ),
{
    match component {
        Component::Cpu => string_of(&chars_of("cpu0")),
        Component::Gpu => string_of(&chars_of("gpu0")),
        Component::Storage => match storage_id {
            Some(s) => string_of(&chars_of(s)),
            None => string_of(&chars_of("storage")),
        },
        Component::Motherboard => string_of(&chars_of("board")),
        Component::Memory => string_of(&chars_of("memory")),
        Component::Network => {
            let chip = string_of(&trim_chars(&chars_of(chip_name)));
            let n = normalize_sensor_label(chip.as_str());
            string_of(&concat(&chars_of("net:"), &chars_of(n.as_str())))
        },
        Component::Cooling => string_of(&chars_of("cooling")),
        Component::System => string_of(&chars_of("system")),
        Component::Battery => string_of(&chars_of("battery")),
        Component::Unknown => {
            let chip = string_of(&trim_chars(&chars_of(chip_name)));
            let n = normalize_sensor_label(chip.as_str());
            string_of(&concat(&chars_of("unknown:"), &chars_of(n.as_str())))
        },
    }
}

/// How a fan channel is reported: a water-flow sensor is a cooling
/// reading named `water_flow`; any other fan belongs to its chip and is
/// named after its sensor with `_rpm`.
pub open spec fn fan_naming_spec(n: Seq<char>, component: Component) -> (Component, Seq<char>, Seq<char>) {
    if contains(n, "water_flow"@) {
        (Component::Cooling, "water_flow_rpm"@, "water_flow"@)
    } else {
        (component, n + "_rpm"@, n)
    }
}

pub fn fan_naming(normalized_sensor: &str, component: Component) -> (r: (Component, String, String))
    ensures
        ({
            let (c, sensor, instance) = fan_naming_spec(normalized_sensor@, component);
            r.0 == c && r.1@ == sensor && r.2@ == instance
        }),
{
    let n = chars_of(normalized_sensor);
    if contains_chars(&n, &chars_of("water_flow")) {
        (Component::Cooling, string_of(&chars_of("water_flow_rpm")), string_of(&chars_of("water_flow")))
    } else {
        (component, string_of(&concat(&n, &chars_of("_rpm"))), string_of(&n))
    }
}

/// The normalised labels of a sensor allow- or denylist.
pub fn normalized_filter_set(values: &[String]) -> (r: Vec<String>)
    ensures
        r@.len() == values@.len(),
        forall|k: int| 0 <= k < r@.len() ==> (#[trigger] r@[k])@ == normalized_label(values@[k]@),
{
    let mut out: Vec<String> = Vec::new();
    let mut i: usize = 0;
    while i < values.len()
        invariant
            0 <= i <= values@.len(),
            out@.len() == i,
            forall|k: int| 0 <= k < i ==> (#[trigger] out@[k])@ == normalized_label(values@[k]@),
        decreases values.len() - i,
    {
        out.push(normalize_sensor_label(values[i].as_str()));
        i += 1;
    }
    out
}

pub open spec fn listed(set: Seq<String>, n: Seq<char>) -> bool {
    exists|k: int| 0 <= k < set.len() && (#[trigger] set[k])@ == n
}

pub fn is_listed(set: &[String], n: &[char]) -> (r: bool)
    ensures
        r == listed(set@, n@),
{
    let mut i: usize = 0;
    while i < set.len()
        invariant
            0 <= i <= set@.len(),
            forall|k: int| 0 <= k < i ==> (#[trigger] set@[k])@ != n@,
        decreases set.len() - i,
    {
        if chars_eq(&chars_of(set[i].as_str()), n) {
            return true;
        }
        i += 1;
    }
    false
}

/// Whether the lists let a sensor through: it is on a non-empty allowlist
/// (or the allowlist is empty) and not on the denylist.
pub open spec fn filters_allow(allow: Seq<String>, deny: Seq<String>, n: Seq<char>) -> bool {
    (allow.len() == 0 || listed(allow, n)) && !listed(deny, n)
}

pub fn sensor_allowed(allowlist: &[String], denylist: &[String], normalized_sensor: &str) -> (r: bool)
    ensures
        r == filters_allow(allowlist@, denylist@, normalized_sensor@),
{
    let n = chars_of(normalized_sensor);
    (allowlist.len() == 0 || is_listed(allowlist, &n)) && !is_listed(denylist, &n)
}

/// Why a temperature channel is not reported, if it is not: its input
/// could not be read or parsed, it has no value, its chip is left out, or
/// the lists filter it.
pub open spec fn skip_reason_spec(
    input_error: Option<Seq<char>>,
    has_value: bool,
    included: bool,
    n: Seq<char>,
    allow: Seq<String>,
    deny: Seq<String>,
) -> Option<Seq<char>> {
    match input_error {
        Some(e) => Some("invalid_or_unreadable_input: "@ + e),
        None => if !has_value {
            Some("missing_temperature_value"@)
        } else if !included {
            Some("unknown_component_disabled"@)
        } else if allow.len() > 0 && !listed(allow, n) {
            Some("not_in_allowlist"@)
        } else if listed(deny, n) {
            Some("in_denylist"@)
        } else {
            None
        },
    }
}

pub fn inspection_skip_reason(
    included_by_config: bool,
    normalized_sensor: &str,
    allowlist: &[String],
    denylist: &[String],
    has_value: bool,
    input_error: Option<&str>,
) -> (r: Option<String>)
    ensures
        match r {
            Some(s) => skip_reason_spec(
                match input_error {
                    Some(e) => Some(e@),
                    None => None,
                },
                has_value,
                included_by_config,
                normalized_sensor@,
                allowlist@,
                denylist@,
            ) == Some(s@),
            None => skip_reason_spec(
                match input_error {
                    Some(e) => Some(e@),
                    None => None,
                },
                has_value,
                included_by_config,
                normalized_sensor@,
                allowlist@,
                denylist@,
            ) is None,
        },
{
    if let Some(error) = input_error {
        return Some(string_of(&concat(&chars_of("invalid_or_unreadable_input: "), &chars_of(error))));
    }
    if !has_value {
        return Some(string_of(&chars_of("missing_temperature_value")));
    }
    if !included_by_config {
        return Some(string_of(&chars_of("unknown_component_disabled")));
    }
    let n = chars_of(normalized_sensor);
    if allowlist.len() > 0 && !is_listed(allowlist, &n) {
        return Some(string_of(&chars_of("not_in_allowlist")));
    }
    if is_listed(denylist, &n) {
        return Some(string_of(&chars_of("in_denylist")));
    }
    None
}

// ---------------------------------------------------------------------------
// Duplicate sensor names
// ---------------------------------------------------------------------------

pub open spec fn key_view(k: Vec<String>) -> Seq<Seq<char>> {
    k@.map_values(|s: String| s@)
}

/// How many of the first `i` keys equal `key`.
pub open spec fn count_before(keys: Seq<Vec<String>>, i: int, key: Seq<Seq<char>>) -> nat
    decreases i,
{
    if i <= 0 {
        0
    } else {
        count_before(keys, i - 1, key) + if key_view(keys[i - 1]) == key {
            1nat
        } else {
            0nat
        }
    }
}

/// The number a reading gets among those with the same key: 0 when its
/// key is unique, else its position among them counting from 1.
pub open spec fn duplicate_position(keys: Seq<Vec<String>>, i: int) -> nat {
    let key = key_view(keys[i]);
    if count_before(keys, keys.len() as int, key) > 1 {
        count_before(keys, i, key) + 1
    } else {
        0
    }
}

fn keys_eq(a: &Vec<String>, b: &Vec<String>) -> (r: bool)
    ensures
        r == (key_view(*a) == key_view(*b)),
{
    if a.len() != b.len() {
        assert(key_view(*a).len() != key_view(*b).len());
        return false;
    }
    let mut i: usize = 0;
    while i < a.len()
        invariant
            a.len() == b.len(),
            0 <= i <= a.len(),
            forall|k: int| 0 <= k < i ==> a@[k]@ == b@[k]@,
        decreases a.len() - i,
    {
        if !chars_eq(&chars_of(a[i].as_str()), &chars_of(b[i].as_str())) {
            assert(key_view(*a)[i as int] != key_view(*b)[i as int]);
            return false;
        }
        i += 1;
    }
    assert(key_view(*a) =~= key_view(*b));
    true
}

fn count_key(keys: &[Vec<String>], upto: usize, key: &Vec<String>) -> (r: usize)
    requires
        upto <= keys.len(),
    ensures
        r == count_before(keys@, upto as int, key_view(*key)),
        r <= upto,
{
    let mut n: usize = 0;
    let mut i: usize = 0;
    while i < upto
        invariant
            0 <= i <= upto <= keys.len(),
            n == count_before(keys@, i as int, key_view(*key)),
            n <= i,
        decreases upto - i,
    {
        if keys_eq(&keys[i], key) {
            n += 1;
        }
        i += 1;
    }
    n
}

/// For each key (in order), its number among the keys equal to it when
/// there are several, else 0. Readings whose number is 2 or more are
/// renamed with that number as a suffix.
pub fn duplicate_positions(keys: &[Vec<String>]) -> (r: Vec<usize>)
    ensures
        r@.len() == keys@.len(),
        forall|i: int| 0 <= i < keys@.len() ==> (#[trigger] r@[i]) as nat == duplicate_position(keys@, i),
{
    let mut out: Vec<usize> = Vec::new();
    let mut i: usize = 0;
    while i < keys.len()
        invariant
            0 <= i <= keys@.len(),
            out@.len() == i,
            forall|k: int| 0 <= k < i ==> (#[trigger] out@[k]) as nat == duplicate_position(keys@, k),
        decreases keys.len() - i,
    {
        let total = count_key(keys, keys.len(), &keys[i]);
        let before = count_key(keys, i, &keys[i]);
        if total > 1 {
            out.push(before + 1);
        } else {
            out.push(0);
        }
        i += 1;
    }
    out
}

/// A name with a duplicate's number: `<name>_<position>`.
pub fn numbered_name(name: &str, position: usize) -> (r: String)
    ensures
        r@ == name@ + seq!['_'] + decimal(position as nat),
{
    let mut n = chars_of(name);
    n.push('_');
    let digits = decimal_chars(position as u64);
    string_of(&concat(&n, &digits))
}

// ---------------------------------------------------------------------------
// Discovery
// ---------------------------------------------------------------------------

/// Counts of one scan: whether the root exists, the chips and temperature
/// inputs found (before any filtering), and the readings reported.
#[derive(Debug, Clone, Copy, PartialEq, Eq, Structural)]
pub struct LinuxHwmonDiscovery {
    pub root_exists: bool,
    pub chips_discovered: usize,
    pub temperature_inputs_discovered: usize,
    pub readings_emitted: usize,
}

impl Default for LinuxHwmonDiscovery {
    fn default() -> (r: Self)
        ensures
            !r.root_exists && r.chips_discovered == 0 && r.temperature_inputs_discovered == 0
                && r.readings_emitted == 0,
    {
        LinuxHwmonDiscovery {
            root_exists: false,
            chips_discovered: 0,
            temperature_inputs_discovered: 0,
            readings_emitted: 0,
        }
    }
}

impl LinuxHwmonDiscovery {
    /// Counts a chip directory and its temperature inputs.
    pub fn count_chip(&mut self, temperature_inputs: usize)
        requires
            old(self).chips_discovered < usize::MAX,
            old(self).temperature_inputs_discovered + temperature_inputs <= usize::MAX,
        ensures
            *final(self) == (LinuxHwmonDiscovery {
                chips_discovered: (old(self).chips_discovered + 1) as usize,
                temperature_inputs_discovered: (old(self).temperature_inputs_discovered
                    + temperature_inputs) as usize,
                ..*old(self)
            }),
    {
        self.chips_discovered = self.chips_discovered + 1;
        self.temperature_inputs_discovered = self.temperature_inputs_discovered
            + temperature_inputs;
    }

    /// The one-line summary printed by discovery.
    pub open spec fn summary_spec(self) -> Seq<char> {
        "available, root_exists="@ + bool_text(self.root_exists) + ", chips="@ + decimal(
            self.chips_discovered as nat,
        ) + ", temp_inputs="@ + decimal(self.temperature_inputs_discovered as nat)
            + ", emitted_temperature_samples="@ + decimal(self.readings_emitted as nat)
    }

    pub fn summary(&self) -> (r: String)
        ensures
            r@ == self.summary_spec(),
    {
        let mut out = chars_of("available, root_exists=");
        out = concat(&out, &bool_chars(self.root_exists));
        out = concat(&out, &chars_of(", chips="));
        out = concat(&out, &decimal_chars(self.chips_discovered as u64));
        out = concat(&out, &chars_of(", temp_inputs="));
        out = concat(&out, &decimal_chars(self.temperature_inputs_discovered as u64));
        out = concat(&out, &chars_of(", emitted_temperature_samples="));
        out = concat(&out, &decimal_chars(self.readings_emitted as u64));
        string_of(&out)
    }
}

/// `true` or `false`, as `format!("{}", b)` writes it.
pub open spec fn bool_text(b: bool) -> Seq<char> {
    if b {
        "true"@
    } else {
        "false"@
    }
}

pub fn bool_chars(b: bool) -> (r: Vec<char>)
    ensures
        r@ == bool_text(b),
{
    if b {
        chars_of("true")
    } else {
        chars_of("false")
    }
}

/// The hwmon temperature collector: its configuration and the errors it
/// has counted.
#[derive(Debug, Clone)]
pub struct LinuxHwmonCollector {
    pub config: crate::config::LinuxHwmonConfig,
    pub errors_total: u64,
}

impl LinuxHwmonCollector {
    pub fn new(config: crate::config::LinuxHwmonConfig) -> (r: Self)
        ensures
            r.config == config,
            r.errors_total == 0,
    {
        LinuxHwmonCollector { config, errors_total: 0 }
    }

    /// Whether collection is impossible here: off Linux, the default root
    /// cannot exist.
    pub fn unsupported_here(config: &crate::config::LinuxHwmonConfig, on_linux: bool) -> (r: bool)
        ensures
            r == (!on_linux && crate::temperature::sysfs::is_default_root_spec(config.root@)),
    {
        !on_linux && crate::temperature::sysfs::is_default_hwmon_root(config.root.as_str())
    }

    /// The discovery line: unsupported off Linux at the default root, the
    /// counts of a scan, or the scan's error.
    pub fn discover_summary(
        config: &crate::config::LinuxHwmonConfig,
        on_linux: bool,
        scan: Result<LinuxHwmonDiscovery, String>,
    ) -> (r: String)
        ensures
            r@ == (if !on_linux && crate::temperature::sysfs::is_default_root_spec(config.root@) {
                "unsupported on this OS"@
            } else {
                match scan {
                    Ok(d) => d.summary_spec(),
                    Err(e) => "error: "@ + e@,
                }
            }),
    {
        if Self::unsupported_here(config, on_linux) {
            return string_of(&chars_of("unsupported on this OS"));
        }
        match scan {
            Ok(d) => d.summary(),
            Err(e) => string_of(&concat(&chars_of("error: "), &chars_of(e.as_str()))),
        }
    }
}

} // verus!
