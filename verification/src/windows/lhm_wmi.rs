//! LibreHardwareMonitor through WMI (queried with PowerShell): how its
//! sensors are sorted into components and named, and what discovery
//! reports.

use vstd::prelude::*;

use crate::temperature::model::{normalize_sensor_label, normalized_label, Component};
use crate::text::{
    chars_eq, chars_of, concat, contains, contains_chars, lower_seq, starts_with, starts_with_chars,
    string_of, to_lower_chars,
};
use crate::windows::lhm_http::LhmQueryOutcome;

verus! {

pub const COLLECTOR_NAME: &'static str = "windows_lhm_wmi";
pub const SOURCE: &'static str = "windows_lhm_wmi";

/// The component of a sensor, from its hardware's type and name.
pub open spec fn wmi_component_for_text(t: Seq<char>) -> Component {
    if contains(t, "cpu"@) || contains(t, "processor"@) || contains(t, "ryzen"@) {
        Component::Cpu
    } else if contains(t, "gpu"@) || contains(t, "radeon"@) || contains(t, "geforce"@) {
        Component::Gpu
    } else if contains(t, "storage"@) || contains(t, "hdd"@) || contains(t, "ssd"@) || contains(
        t,
        "nvme"@,
    ) || contains(t, "drive"@) {
        Component::Storage
    } else if contains(t, "motherboard"@) || contains(t, "superio"@) || contains(t, "mainboard"@) {
        Component::Motherboard
    } else if contains(t, "battery"@) {
        Component::Battery
    } else {
        Component::Unknown
    }
}

pub open spec fn opt_text(o: Option<Seq<char>>) -> Seq<char> {
    match o {
        Some(s) => s,
        None => seq![],
    }
}

/// The type and the name, separated by a space, lower-cased.
pub open spec fn hardware_text(hardware_type: Option<Seq<char>>, hardware_name: Option<Seq<char>>) -> Seq<char> {
    lower_seq(opt_text(hardware_type) + seq![' '] + opt_text(hardware_name))
}

fn has(t: &Vec<char>, word: &str) -> (r: bool)
    ensures
        r == contains(t@, word@),
{
    contains_chars(t, &chars_of(word))
}

pub fn map_component(hardware_type: Option<&str>, hardware_name: Option<&str>) -> (r: Component)
    ensures
        r == wmi_component_for_text(
            hardware_text(
                match hardware_type {
                    Some(s) => Some(s@),
                    None => None,
                },
                match hardware_name {
                    Some(s) => Some(s@),
                    None => None,
                },
            ),
        ),
{
    let a = match hardware_type {
        Some(s) => chars_of(s),
        None => Vec::new(),
    };
    let b = match hardware_name {
        Some(s) => chars_of(s),
        None => Vec::new(),
    };
    let mut sp = vec![' '];
    assert(sp@ =~= seq![' ']);
    let joined = concat(&concat(&a, &sp), &b);
    let t = to_lower_chars(&joined);
    if has(&t, "cpu") || has(&t, "processor") || has(&t, "ryzen") {
        Component::Cpu
    } else if has(&t, "gpu") || has(&t, "radeon") || has(&t, "geforce") {
        Component::Gpu
    } else if has(&t, "storage") || has(&t, "hdd") || has(&t, "ssd") || has(&t, "nvme") || has(
        &t,
        "drive",
    ) {
        Component::Storage
    } else if has(&t, "motherboard") || has(&t, "superio") || has(&t, "mainboard") {
        Component::Motherboard
    } else if has(&t, "battery") {
        Component::Battery
    } else {
        Component::Unknown
    }
}

/// A WMI sensor label in normal form: the usual form, with the package and
/// GPU core shortened, and `temperature_N` written `tempN`.
pub open spec fn wmi_label_spec(raw: Seq<char>) -> Seq<char> {
    let n = normalized_label(raw);
    if n == "cpu_package"@ || starts_with(n, "cpu_package_"@) {
        "package"@
    } else if n == "gpu_core"@ {
        "core"@
    } else if starts_with(n, "temperature_"@) {
        "temp"@ + n.skip(12)
    } else if n == "temperature"@ {
        "temp"@
    } else {
        n
    }
}

pub fn normalize_lhm_sensor_label(raw: &str) -> (r: String)
    ensures
        r@ == wmi_label_spec(raw@),
{
    let n = chars_of(normalize_sensor_label(raw).as_str());
    if chars_eq(&n, &chars_of("cpu_package")) || starts_with_chars(&n, &chars_of("cpu_package_")) {
        string_of(&chars_of("package"))
    } else if chars_eq(&n, &chars_of("gpu_core")) {
        string_of(&chars_of("core"))
    } else if starts_with_chars(&n, &chars_of("temperature_")) {
        proof {
            reveal_strlit("temperature_");
        }
        let suffix = crate::text::slice_chars(&n, 12, n.len());
        assert(suffix@ =~= n@.skip(12));
        string_of(&concat(&chars_of("temp"), &suffix))
    } else if chars_eq(&n, &chars_of("temperature")) {
        string_of(&chars_of("temp"))
    } else {
        string_of(&n)
    }
}

/// The sensor's raw name, or `temperature` without one.
pub fn raw_sensor_name(name: Option<&str>) -> (r: String)
    ensures
        r@ == (match name {
            Some(n) => n@,
            None => "temperature"@,
        }),
{
    match name {
        Some(n) => string_of(&chars_of(n)),
        None => string_of(&chars_of("temperature")),
    }
}

/// Whether a sensor's type is `Temperature` (in any letter case).
pub fn is_temperature_type(sensor_type: Option<&str>) -> (r: bool)
    ensures
        r == (match sensor_type {
            Some(t) => lower_seq(t@) == "temperature"@,
            None => false,
        }),
{
    match sensor_type {
        Some(t) => chars_eq(&to_lower_chars(&chars_of(t)), &chars_of("temperature")),
        None => false,
    }
}

/// A PowerShell single-quoted string: quotes are doubled.
pub open spec fn quote_body(s: Seq<char>) -> Seq<char>
    decreases s.len(),
{
    if s.len() == 0 {
        seq![]
    } else {
        quote_body(s.drop_last()) + if s.last() == '\'' {
            seq!['\'', '\'']
        } else {
            seq![s.last()]
        }
    }
}

pub fn powershell_single_quoted(value: &str) -> (r: String)
    ensures
        r@ == seq!['\''] + quote_body(value@) + seq!['\''],
{
    let v = chars_of(value);
    let mut out: Vec<char> = Vec::new();
    out.push('\'');
    let mut i: usize = 0;
    while i < v.len()
        invariant
            0 <= i <= v@.len(),
            out@ == seq!['\''] + quote_body(v@.take(i as int)),
        decreases v.len() - i,
    {
        assert(v@.take(i + 1).drop_last() =~= v@.take(i as int));
        let ghost before = out@;
        if v[i] == '\'' {
            out.push('\'');
            out.push('\'');
        } else {
            out.push(v[i]);
        }
        assert(out@ =~= seq!['\''] + quote_body(v@.take(i + 1)));
        i += 1;
    }
    assert(v@.take(v@.len() as int) =~= v@);
    out.push('\'');
    string_of(&out)
}

pub fn missing_provider_status(config: &crate::config::WindowsLhmWmiConfig) -> (r: &'static str)
    ensures
        r@ == (if config.require_provider {
            "missing_required_provider"@
        } else {
            "missing_provider"@
        }),
{
    if config.require_provider {
        "missing_required_provider"
    } else {
        "missing_provider"
    }
}

#[derive(Debug, Clone, PartialEq, Eq)]
pub struct WindowsLhmWmiDiscovery {
    pub enabled: bool,
    pub supported: bool,
    pub status: &'static str,
    pub namespace: String,
    pub sensor_count: usize,
    pub message: Option<String>,
}

/// The collector's configuration and the errors it has counted.
#[derive(Debug, Clone)]
pub struct WindowsLhmWmiCollector {
    pub config: crate::config::WindowsLhmWmiConfig,
    pub errors_total: u64,
}

impl WindowsLhmWmiCollector {
    pub fn new(config: crate::config::WindowsLhmWmiConfig) -> (r: Self)
        ensures
            r.config == config,
            r.errors_total == 0,
    {
        WindowsLhmWmiCollector { config, errors_total: 0 }
    }

    /// The discovery summary: disabled, or what the provider answered.
    pub fn discover_summary(config: &crate::config::WindowsLhmWmiConfig, outcome: LhmQueryOutcome) -> (r: WindowsLhmWmiDiscovery)
        ensures
            r.namespace@ == config.namespace@,
            !config.enabled ==> !r.enabled && !r.supported && r.status@ == "disabled"@
                && r.sensor_count == 0 && r.message is None,
            config.enabled ==> r.enabled && match outcome {
                LhmQueryOutcome::Unavailable(m) => !r.supported && r.status@ == (if config.require_provider {
                    "missing_required_provider"@
                } else {
                    "missing_provider"@
                }) && r.sensor_count == 0 && r.message == m,
                LhmQueryOutcome::Sensors(n, m) => r.supported && r.status@ == "available"@
                    && r.sensor_count == n && r.message == m,
                LhmQueryOutcome::Failed(e) => r.supported && r.status@ == "error"@ && r.sensor_count
                    == 0 && r.message == Some(e),
            },
    {
        let namespace = string_of(&chars_of(config.namespace.as_str()));
        if !config.enabled {
            return WindowsLhmWmiDiscovery {
                enabled: false,
                supported: false,
                status: "disabled",
                namespace,
                sensor_count: 0,
                message: None,
            };
        }
        match outcome {
            LhmQueryOutcome::Unavailable(m) => WindowsLhmWmiDiscovery {
                enabled: true,
                supported: false,
                status: missing_provider_status(config),
                namespace,
                sensor_count: 0,
                message: m,
            },
            LhmQueryOutcome::Sensors(n, m) => WindowsLhmWmiDiscovery {
                enabled: true,
                supported: true,
                status: "available",
                namespace,
                sensor_count: n,
                message: m,
            },
            LhmQueryOutcome::Failed(e) => WindowsLhmWmiDiscovery {
                enabled: true,
                supported: true,
                status: "error",
                namespace,
                sensor_count: 0,
                message: Some(e),
            },
        }
    }
}


// ---------------------------------------------------------------------------
// Temperature readings
// ---------------------------------------------------------------------------

/// What a WMI sensor row says, with whether its value is a plausible
/// temperature (finite, from -100 to 250 degrees).
#[derive(Debug, Clone)]
pub struct LhmWmiSensorFacts {
    pub hardware_type: Option<String>,
    pub hardware_name: Option<String>,
    pub name: Option<String>,
    pub sensor_type: Option<String>,
    pub value_valid: bool,
}

/// A sensor row kept as a temperature reading: its position among the
/// rows, its component, and the sensor name it is published under.
#[derive(Debug, Clone, PartialEq, Eq)]
pub struct LhmWmiReadingName {
    pub index: usize,
    pub component: Component,
    pub sensor: String,
}

pub open spec fn opt_view(o: Option<String>) -> Option<Seq<char>> {
    match o {
        Some(s) => Some(s@),
        None => None,
    }
}

/// The labels of a list, normalised as sensor names.
pub open spec fn wmi_filter_set(values: Seq<String>) -> Seq<Seq<char>> {
    values.map_values(|v: String| wmi_label_spec(v@))
}

pub open spec fn in_set(set: Seq<Seq<char>>, n: Seq<char>) -> bool {
    exists|k: int| 0 <= k < set.len() && set[k] == n
}

/// The normalised name of a row's sensor.
pub open spec fn row_sensor(s: LhmWmiSensorFacts) -> Seq<char> {
    wmi_label_spec(
        match s.name {
            Some(n) => n@,
            None => "temperature"@,
        },
    )
}

pub open spec fn row_component(s: LhmWmiSensorFacts) -> Component {
    wmi_component_for_text(hardware_text(opt_view(s.hardware_type), opt_view(s.hardware_name)))
}

/// Whether a row is a temperature reading that is reported.
pub open spec fn row_kept(
    s: LhmWmiSensorFacts,
    include_unknown: bool,
    allow: Seq<Seq<char>>,
    deny: Seq<Seq<char>>,
) -> bool {
    &&& (match s.sensor_type {
        Some(t) => lower_seq(t@) == "temperature"@,
        None => false,
    })
    &&& s.value_valid
    &&& (row_component(s) != Component::Unknown || include_unknown)
    &&& (allow.len() == 0 || in_set(allow, row_sensor(s)))
    &&& !in_set(deny, row_sensor(s))
}

/// The readings kept, in row order, each with the number of kept readings
/// so far (itself included) of the same component and sensor name.
pub open spec fn kept_rows(
    rows: Seq<LhmWmiSensorFacts>,
    include_unknown: bool,
    allow: Seq<Seq<char>>,
    deny: Seq<Seq<char>>,
) -> Seq<(int, Component, Seq<char>, nat)>
    decreases rows.len(),
{
    if rows.len() == 0 {
        seq![]
    } else {
        let prev = kept_rows(rows.drop_last(), include_unknown, allow, deny);
        let s = rows.last();
        if row_kept(s, include_unknown, allow, deny) {
            prev.push(
                (
                    rows.len() - 1,
                    row_component(s),
                    row_sensor(s),
                    same_key_count(prev, row_component(s), row_sensor(s)) + 1,
                ),
            )
        } else {
            prev
        }
    }
}

/// How many of the kept readings have the component and sensor name.
pub open spec fn same_key_count(prev: Seq<(int, Component, Seq<char>, nat)>, c: Component, n: Seq<char>) -> nat
    decreases prev.len(),
{
    if prev.len() == 0 {
        0
    } else {
        same_key_count(prev.drop_last(), c, n) + if prev.last().1 == c && prev.last().2 == n {
            1nat
        } else {
            0nat
        }
    }
}

/// The published name: the second and later readings of the same
/// component and name get their number as a suffix.
pub open spec fn published_name(n: Seq<char>, count: nat) -> Seq<char> {
    if count > 1 {
        n + seq!['_'] + crate::text::decimal(count)
    } else {
        n
    }
}

fn wmi_filter_list(values: &Vec<String>) -> (r: Vec<Vec<char>>)
    ensures
        r@.len() == values@.len(),
        forall|k: int| 0 <= k < r@.len() ==> (#[trigger] r@[k])@ == wmi_filter_set(values@)[k],
{
    let mut out: Vec<Vec<char>> = Vec::new();
    let mut i: usize = 0;
    while i < values.len()
        invariant
            0 <= i <= values@.len(),
            out@.len() == i,
            forall|k: int| 0 <= k < i ==> (#[trigger] out@[k])@ == wmi_filter_set(values@)[k],
        decreases values.len() - i,
    {
        out.push(chars_of(normalize_lhm_sensor_label(values[i].as_str()).as_str()));
        i += 1;
    }
    out
}

fn list_has(set: &Vec<Vec<char>>, n: &Vec<char>, ghost_set: Ghost<Seq<Seq<char>>>) -> (r: bool)
    requires
        set@.len() == ghost_set@.len(),
        forall|k: int| 0 <= k < set@.len() ==> (#[trigger] set@[k])@ == ghost_set@[k],
    ensures
        r == in_set(ghost_set@, n@),
{
    let mut i: usize = 0;
    while i < set.len()
        invariant
            0 <= i <= set@.len() == ghost_set@.len(),
            forall|k: int| 0 <= k < set@.len() ==> (#[trigger] set@[k])@ == ghost_set@[k],
            forall|k: int| 0 <= k < i ==> ghost_set@[k] != n@,
        decreases set.len() - i,
    {
        if chars_eq(&set[i], n) {
            return true;
        }
        i += 1;
    }
    false
}

/// The temperature readings among the WMI rows and their published names:
/// rows of another type, with an implausible value, of an unknown
/// component (unless asked for), or filtered by the lists are dropped; a
/// repeated component and name is numbered.
pub fn wmi_temperature_readings(
    config: &crate::config::WindowsLhmWmiConfig,
    rows: &Vec<LhmWmiSensorFacts>,
) -> (r: Vec<LhmWmiReadingName>)
    ensures
        r@.len() == kept_rows(
            rows@,
            config.include_unknown_sensors,
            wmi_filter_set(config.sensor_allowlist@),
            wmi_filter_set(config.sensor_denylist@),
        ).len(),
        forall|k: int|
            0 <= k < r@.len() ==> {
                let e = #[trigger] kept_rows(
                    rows@,
                    config.include_unknown_sensors,
                    wmi_filter_set(config.sensor_allowlist@),
                    wmi_filter_set(config.sensor_denylist@),
                )[k];
                &&& r@[k].index as int == e.0
                &&& r@[k].component == e.1
                &&& r@[k].sensor@ == published_name(e.2, e.3)
            },
{
    let ghost allow_v = wmi_filter_set(config.sensor_allowlist@);
    let ghost deny_v = wmi_filter_set(config.sensor_denylist@);
    let ghost inc = config.include_unknown_sensors;
    let allow = wmi_filter_list(&config.sensor_allowlist);
    let deny = wmi_filter_list(&config.sensor_denylist);
    let mut kept: Vec<(usize, Component, Vec<char>, usize)> = Vec::new();
    let mut out: Vec<LhmWmiReadingName> = Vec::new();
    let mut i: usize = 0;
    assert(rows@.take(0) =~= Seq::<LhmWmiSensorFacts>::empty());
    while i < rows.len()
        invariant
            0 <= i <= rows@.len(),
            allow@.len() == allow_v.len(),
            forall|k: int| 0 <= k < allow@.len() ==> (#[trigger] allow@[k])@ == allow_v[k],
            deny@.len() == deny_v.len(),
            forall|k: int| 0 <= k < deny@.len() ==> (#[trigger] deny@[k])@ == deny_v[k],
            inc == config.include_unknown_sensors,
            kept@.len() == out@.len() == kept_rows(rows@.take(i as int), inc, allow_v, deny_v).len(),
            kept@.len() <= i,
            forall|k: int|
                0 <= k < kept@.len() ==> {
                    let e = #[trigger] kept_rows(rows@.take(i as int), inc, allow_v, deny_v)[k];
                    &&& kept@[k].0 as int == e.0
                    &&& kept@[k].1 == e.1
                    &&& kept@[k].2@ == e.2
                    &&& kept@[k].3 as nat == e.3
                    &&& out@[k].index as int == e.0
                    &&& out@[k].component == e.1
                    &&& out@[k].sensor@ == published_name(e.2, e.3)
                    &&& e.3 <= k + 1
                },
        decreases rows.len() - i,
    {
        let ghost prev = kept_rows(rows@.take(i as int), inc, allow_v, deny_v);
        let row = &rows[i];
        assert(rows@.take(i + 1).drop_last() =~= rows@.take(i as int));
        assert(rows@.take(i + 1).last() == rows@[i as int]);
        let is_temp = match &row.sensor_type {
            Some(t) => is_temperature_type(Some(t.as_str())),
            None => false,
        };
        let component = map_component(
            match &row.hardware_type {
                Some(t) => Some(t.as_str()),
                None => None,
            },
            match &row.hardware_name {
                Some(t) => Some(t.as_str()),
                None => None,
            },
        );
        let raw = match &row.name {
            Some(n) => n.as_str(),
            None => "temperature",
        };
        let sensor = chars_of(normalize_lhm_sensor_label(raw).as_str());
        let keep = is_temp && row.value_valid && (component != Component::Unknown
            || config.include_unknown_sensors) && (allow.len() == 0 || list_has(
            &allow,
            &sensor,
            Ghost(allow_v),
        )) && !list_has(&deny, &sensor, Ghost(deny_v));
        proof {
            assert(row_component(rows@[i as int]) == component);
            assert(row_sensor(rows@[i as int]) == sensor@);
            assert(keep == row_kept(rows@[i as int], inc, allow_v, deny_v));
        }
        if keep {
            // how many kept readings share the component and name
            let mut count: usize = 0;
            let mut j: usize = 0;
            while j < kept.len()
                invariant
                    0 <= j <= kept@.len() == prev.len(),
                    kept@.len() <= i,
                    forall|k: int|
                        0 <= k < kept@.len() ==> (#[trigger] kept@[k]).1 == prev[k].1 && kept@[k].2@
                            == prev[k].2,
                    count as nat == same_key_count(prev.take(j as int), component, sensor@),
                    count <= j,
                decreases kept.len() - j,
            {
                assert(prev.take(j + 1).drop_last() =~= prev.take(j as int));
                assert(prev.take(j + 1).last() == prev[j as int]);
                if kept[j].1 == component && chars_eq(&kept[j].2, &sensor) {
                    count += 1;
                }
                j += 1;
            }
            assert(prev.take(kept@.len() as int) =~= prev);
            let number = count + 1;
            let name = if number > 1 {
                let mut n2 = sensor.clone();
                n2.push('_');
                assert(n2@ =~= sensor@ + seq!['_']);
                string_of(&concat(&n2, &crate::text::decimal_chars(number as u64)))
            } else {
                string_of(&sensor)
            };
            let ghost e = (i as int, component, sensor@, number as nat);
            out.push(LhmWmiReadingName { index: i, component, sensor: name });
            kept.push((i, component, sensor, number));
            proof {
                assert(kept_rows(rows@.take(i + 1), inc, allow_v, deny_v) =~= prev.push(e));
            }
        } else {
            proof {
                assert(kept_rows(rows@.take(i + 1), inc, allow_v, deny_v) =~= prev);
            }
        }
        i += 1;
    }
    assert(rows@.take(rows@.len() as int) =~= rows@);
    out
}

} // verus!
