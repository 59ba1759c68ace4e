//! GPUs driven by the DRM drivers that have no collector of their own
//! (Intel, Arm Mali, Qualcomm Adreno): which drivers are supported, which
//! hwmon files each is read from, the throttle reason files, and the
//! per-client `fdinfo` statistics of a process.

use vstd::prelude::*;

use crate::linux::gpu_discovery::LinuxGpuDevice;
use crate::metrics::{labels_spec, LabelSet};
use crate::text::{
    chars_eq, chars_of, chars_lt, concat, contains, contains_chars, decimal, decimal_chars,
    ends_with, ends_with_chars, lines, lines_of, parse_u64_chars, parse_unsigned, runs, runs_of,
    seq_lt, split_once, split_once_chars, starts_with, starts_with_chars, string_of, trim,
    trim_chars, CharClass,
};

verus! {

pub const COLLECTOR_NAME: &'static str = "linux_drm";
pub const SOURCE: &'static str = "linux_drm";

/// The drivers this collector reads.
pub open spec fn supported_driver_spec(d: Seq<char>) -> bool {
    d == "i915"@ || d == "xe"@ || d == "panfrost"@ || d == "panthor"@ || d == "msm_dpu"@ || d
        == "msm_drm"@
}

/// The positions, in order, of the devices among the first `n` whose
/// driver the collector supports.
pub open spec fn supported_positions(d: Seq<LinuxGpuDevice>, n: int) -> Seq<usize>
    decreases n,
{
    if n <= 0 {
        seq![]
    } else {
        let p = supported_positions(d, n - 1);
        if supported_driver_spec(d[n - 1].backend_driver_spec()) {
            p.push((n - 1) as usize)
        } else {
            p
        }
    }
}

/// The positions of the devices the collector reads, in order: those whose
/// driver it supports.
pub fn supported_gpu_positions(devices: &[LinuxGpuDevice]) -> (r: Vec<usize>)
    ensures
        r@ == supported_positions(devices@, devices@.len() as int),
{
    let mut out: Vec<usize> = Vec::new();
    let mut i: usize = 0;
    while i < devices.len()
        invariant
            0 <= i <= devices@.len(),
            out@ == supported_positions(devices@, i as int),
        decreases devices.len() - i,
    {
        if supported_driver(devices[i].backend_driver()) {
            out.push(i);
        }
        i += 1;
    }
    out
}

pub fn supported_driver(driver: &str) -> (r: bool)
    ensures
        r == supported_driver_spec(driver@),
{
    let d = chars_of(driver);
    chars_eq(&d, &chars_of("i915")) || chars_eq(&d, &chars_of("xe")) || chars_eq(
        &d,
        &chars_of("panfrost"),
    ) || chars_eq(&d, &chars_of("panthor")) || chars_eq(&d, &chars_of("msm_dpu")) || chars_eq(
        &d,
        &chars_of("msm_drm"),
    )
}

/// The vendor of a PCI vendor id.
pub open spec fn vendor_label_spec(vendor_id: Option<Seq<char>>) -> Seq<char> {
    match vendor_id {
        Some(v) => if v == "0x8086"@ {
            "intel"@
        } else if v == "0x1002"@ {
            "amd"@
        } else if v == "0x10de"@ {
            "nvidia"@
        } else {
            "unknown"@
        },
        None => "unknown"@,
    }
}

pub fn vendor_label(vendor_id: Option<&str>) -> (r: &'static str)
    ensures
        r@ == vendor_label_spec(
            match vendor_id {
                Some(v) => Some(v@),
                None => None,
            },
        ),
{
    match vendor_id {
        Some(v) => {
            let c = chars_of(v);
            if chars_eq(&c, &chars_of("0x8086")) {
                "intel"
            } else if chars_eq(&c, &chars_of("0x1002")) {
                "amd"
            } else if chars_eq(&c, &chars_of("0x10de")) {
                "nvidia"
            } else {
                "unknown"
            }
        },
        None => "unknown",
    }
}

/// The labels every metric of a GPU carries.
pub open spec fn base_labels_spec(device: LinuxGpuDevice, gpu_index: usize, driver: Seq<char>) -> Map<Seq<char>, Seq<char>> {
    Map::<Seq<char>, Seq<char>>::empty().insert("component"@, "gpu"@).insert(
        "device_id"@,
        device.stable_id_spec(),
    ).insert("gpu_index"@, decimal(gpu_index as nat)).insert("source"@, SOURCE@).insert(
        "source_driver"@,
        driver,
    )
}

pub fn base_labels(device: &LinuxGpuDevice, gpu_index: usize, driver: &str) -> (r: LabelSet)
    ensures
        r.wf(),
        r.map() == base_labels_spec(*device, gpu_index, driver@),
{
    let mut set = LabelSet::new();
    set.insert(string_of(&chars_of("component")), string_of(&chars_of("gpu")));
    set.insert(string_of(&chars_of("device_id")), device.stable_id());
    set.insert(string_of(&chars_of("gpu_index")), string_of(&decimal_chars(gpu_index as u64)));
    set.insert(string_of(&chars_of("source")), string_of(&chars_of(SOURCE)));
    set.insert(string_of(&chars_of("source_driver")), string_of(&chars_of(driver)));
    set
}

// ---------------------------------------------------------------------------
// hwmon files
// ---------------------------------------------------------------------------

/// What an hwmon file measures and how its value is scaled.
#[derive(Debug, Clone, Copy, PartialEq, Eq, Structural)]
pub enum ProbeKind {
    /// Millidegrees Celsius.
    Temperature,
    /// Millivolts.
    Voltage,
    /// Revolutions per minute.
    Fan,
    /// Microwatts.
    Power,
    /// Microwatts, as a limit.
    PowerLimit,
    /// Microjoules, turned into watts between two readings.
    EnergyPower,
}

/// A file to read under a GPU's hwmon directory: a named file, or the
/// lowest-named file with the given prefix and suffix.
#[derive(Debug, Clone, Copy, PartialEq, Eq)]
pub struct HwmonProbe {
    pub kind: ProbeKind,
    pub lowest: bool,
    pub file: &'static str,
    pub suffix: &'static str,
    pub sensor: &'static str,
    pub instance: &'static str,
}

pub open spec fn probe_view(p: HwmonProbe) -> (ProbeKind, bool, Seq<char>, Seq<char>, Seq<char>, Seq<char>) {
    (p.kind, p.lowest, p.file@, p.suffix@, p.sensor@, p.instance@)
}

/// The files read for each driver: Intel's i915 and Xe at fixed names,
/// any other driver at the lowest-numbered channel of each kind.
pub open spec fn probe_plan(driver: Seq<char>) -> Seq<(ProbeKind, bool, Seq<char>, Seq<char>, Seq<char>, Seq<char>)> {
    if driver == "i915"@ {
        seq![
            (ProbeKind::Temperature, false, "temp1_input"@, ""@, "gpu_edge_temp"@, "edge"@),
            (ProbeKind::Voltage, false, "in0_input"@, ""@, "gpu_voltage"@, "core"@),
            (ProbeKind::Fan, false, "fan1_input"@, ""@, "gpu_fan_rpm"@, "fan1"@),
            (ProbeKind::PowerLimit, false, "power1_max"@, ""@, "gpu_power_limit"@, "current"@),
            (ProbeKind::Power, false, "power1_input"@, ""@, "gpu_power"@, "current"@),
            (ProbeKind::Power, false, "power1_average"@, ""@, "gpu_power"@, "average"@),
            (ProbeKind::EnergyPower, false, "energy1_input"@, ""@, "gpu_power"@, "energy"@),
        ]
    } else if driver == "xe"@ {
        seq![
            (ProbeKind::Temperature, false, "temp2_input"@, ""@, "gpu_edge_temp"@, "edge"@),
            (ProbeKind::Temperature, false, "temp3_input"@, ""@, "gpu_memory_temp"@, "memory"@),
            (ProbeKind::Voltage, false, "in1_input"@, ""@, "gpu_voltage"@, "core"@),
            (ProbeKind::Fan, false, "fan1_input"@, ""@, "gpu_fan_rpm"@, "fan1"@),
            (ProbeKind::PowerLimit, false, "power2_max"@, ""@, "gpu_power_limit"@, "current"@),
            (ProbeKind::Power, false, "power2_input"@, ""@, "gpu_power"@, "current"@),
            (ProbeKind::Power, false, "power2_average"@, ""@, "gpu_power"@, "average"@),
            (ProbeKind::EnergyPower, false, "energy2_input"@, ""@, "gpu_power"@, "energy"@),
        ]
    } else {
        seq![
            (ProbeKind::Temperature, true, "temp"@, "_input"@, "gpu_edge_temp"@, "edge"@),
            (ProbeKind::Voltage, true, "in"@, "_input"@, "gpu_voltage"@, "core"@),
            (ProbeKind::Fan, true, "fan"@, "_input"@, "gpu_fan_rpm"@, "fan"@),
            (ProbeKind::Power, true, "power"@, "_input"@, "gpu_power"@, "current"@),
            (ProbeKind::Power, true, "power"@, "_average"@, "gpu_power"@, "average"@),
            (ProbeKind::EnergyPower, true, "energy"@, "_input"@, "gpu_power"@, "energy"@),
        ]
    }
}

fn named(kind: ProbeKind, file: &'static str, sensor: &'static str, instance: &'static str) -> (r: HwmonProbe)
    ensures
        probe_view(r) == (kind, false, file@, ""@, sensor@, instance@),
{
    HwmonProbe { kind, lowest: false, file, suffix: "", sensor, instance }
}

fn lowest(kind: ProbeKind, prefix: &'static str, suffix: &'static str, sensor: &'static str, instance: &'static str) -> (r: HwmonProbe)
    ensures
        probe_view(r) == (kind, true, prefix@, suffix@, sensor@, instance@),
{
    HwmonProbe { kind, lowest: true, file: prefix, suffix, sensor, instance }
}

pub fn hwmon_probes(driver: &str) -> (r: Vec<HwmonProbe>)
    ensures
        r@.map_values(|p: HwmonProbe| probe_view(p)) == probe_plan(driver@),
{
    let d = chars_of(driver);
    let mut v: Vec<HwmonProbe> = Vec::new();
    if chars_eq(&d, &chars_of("i915")) {
        v.push(named(ProbeKind::Temperature, "temp1_input", "gpu_edge_temp", "edge"));
        v.push(named(ProbeKind::Voltage, "in0_input", "gpu_voltage", "core"));
        v.push(named(ProbeKind::Fan, "fan1_input", "gpu_fan_rpm", "fan1"));
        v.push(named(ProbeKind::PowerLimit, "power1_max", "gpu_power_limit", "current"));
        v.push(named(ProbeKind::Power, "power1_input", "gpu_power", "current"));
        v.push(named(ProbeKind::Power, "power1_average", "gpu_power", "average"));
        v.push(named(ProbeKind::EnergyPower, "energy1_input", "gpu_power", "energy"));
    } else if chars_eq(&d, &chars_of("xe")) {
        v.push(named(ProbeKind::Temperature, "temp2_input", "gpu_edge_temp", "edge"));
        v.push(named(ProbeKind::Temperature, "temp3_input", "gpu_memory_temp", "memory"));
        v.push(named(ProbeKind::Voltage, "in1_input", "gpu_voltage", "core"));
        v.push(named(ProbeKind::Fan, "fan1_input", "gpu_fan_rpm", "fan1"));
        v.push(named(ProbeKind::PowerLimit, "power2_max", "gpu_power_limit", "current"));
        v.push(named(ProbeKind::Power, "power2_input", "gpu_power", "current"));
        v.push(named(ProbeKind::Power, "power2_average", "gpu_power", "average"));
        v.push(named(ProbeKind::EnergyPower, "energy2_input", "gpu_power", "energy"));
    } else {
        v.push(lowest(ProbeKind::Temperature, "temp", "_input", "gpu_edge_temp", "edge"));
        v.push(lowest(ProbeKind::Voltage, "in", "_input", "gpu_voltage", "core"));
        v.push(lowest(ProbeKind::Fan, "fan", "_input", "gpu_fan_rpm", "fan"));
        v.push(lowest(ProbeKind::Power, "power", "_input", "gpu_power", "current"));
        v.push(lowest(ProbeKind::Power, "power", "_average", "gpu_power", "average"));
        v.push(lowest(ProbeKind::EnergyPower, "energy", "_input", "gpu_power", "energy"));
    }
    assert(v@.map_values(|p: HwmonProbe| probe_view(p)) =~= probe_plan(driver@));
    v
}

/// Whether a file name has the prefix and the suffix.
pub open spec fn name_matches(n: Seq<char>, prefix: Seq<char>, suffix: Seq<char>) -> bool {
    starts_with(n, prefix) && ends_with(n, suffix)
}

/// The lowest of the names that match (in the order paths are sorted).
pub fn lowest_matching_name(names: &[String], prefix: &str, suffix: &str) -> (r: Option<usize>)
    ensures
        match r {
            Some(i) => i < names@.len() && name_matches(names@[i as int]@, prefix@, suffix@)
                && forall|j: int|
                0 <= j < names@.len() && name_matches(names@[j]@, prefix@, suffix@) ==> !seq_lt(
                    #[trigger] names@[j]@,
                    names@[i as int]@,
                ),
            None => forall|j: int|
                0 <= j < names@.len() ==> !name_matches(#[trigger] names@[j]@, prefix@, suffix@),
        },
{
    let p = chars_of(prefix);
    let s = chars_of(suffix);
    let mut best: Option<usize> = None;
    let mut i: usize = 0;
    while i < names.len()
        invariant
            0 <= i <= names@.len(),
            p@ == prefix@,
            s@ == suffix@,
            match best {
                Some(b) => b < i && name_matches(names@[b as int]@, prefix@, suffix@) && forall|j: int|
                    0 <= j < i && name_matches(names@[j]@, prefix@, suffix@) ==> !seq_lt(
                        #[trigger] names@[j]@,
                        names@[b as int]@,
                    ),
                None => forall|j: int| 0 <= j < i ==> !name_matches(#[trigger] names@[j]@, prefix@, suffix@),
            },
        decreases names.len() - i,
    {
        let n = chars_of(names[i].as_str());
        if starts_with_chars(&n, &p) && ends_with_chars(&n, &s) {
            match best {
                Some(b) => {
                    if chars_lt(&n, &chars_of(names[b].as_str())) {
                        proof {
                            assert forall|j: int|
                                0 <= j < i + 1 && name_matches(names@[j]@, prefix@, suffix@) implies !seq_lt(
                                #[trigger] names@[j]@,
                                names@[i as int]@,
                            ) by {
                                if j == i {
                                    crate::text::lemma_seq_lt_irreflexive(names@[j]@);
                                } else if seq_lt(names@[j]@, names@[i as int]@) {
                                    crate::text::lemma_seq_lt_transitive(
                                        names@[j]@,
                                        names@[i as int]@,
                                        names@[b as int]@,
                                    );
                                }
                            }
                        }
                        best = Some(i);
                    }
                },
                None => {
                    proof {
                        crate::text::lemma_seq_lt_irreflexive(names@[i as int]@);
                    }
                    best = Some(i);
                },
            }
        }
        i += 1;
    }
    best
}

// ---------------------------------------------------------------------------
// Clocks and throttling
// ---------------------------------------------------------------------------

/// The card directory an Intel i915 GPU keeps its frequency and throttle
/// files under: its card, else `card0`.
pub open spec fn i915_card_spec(device: LinuxGpuDevice) -> Seq<char> {
    match device.card {
        Some(c) => c@,
        None => "card0"@,
    }
}

/// The i915 file with the actual GPU frequency in MHz.
pub fn i915_clock_path(device: &LinuxGpuDevice) -> (r: String)
    ensures
        r@ == crate::text::join_path(
            crate::text::join_path(
                crate::text::join_path(device.device_path@, "drm"@),
                i915_card_spec(*device),
            ),
            "gt_act_freq_mhz"@,
        ),
{
    let card = match &device.card {
        Some(c) => chars_of(c.as_str()),
        None => chars_of("card0"),
    };
    let a = crate::text::join_path_chars(&chars_of(device.device_path.as_str()), &chars_of("drm"));
    let b = crate::text::join_path_chars(&a, &card);
    string_of(&crate::text::join_path_chars(&b, &chars_of("gt_act_freq_mhz")))
}

/// The directory of throttle reason files of a driver, if it has one.
pub open spec fn throttle_root_spec(device: LinuxGpuDevice, driver: Seq<char>) -> Option<Seq<char>> {
    if driver == "i915"@ {
        Some(
            crate::text::join_path(
                crate::text::join_path(
                    crate::text::join_path(device.device_path@, "drm"@),
                    i915_card_spec(device),
                ),
                "gt/gt0"@,
            ),
        )
    } else if driver == "xe"@ {
        Some(crate::text::join_path(device.device_path@, "tile0/gt0/freq0/throttle"@))
    } else {
        None
    }
}

pub fn throttle_root(device: &LinuxGpuDevice, driver: &str) -> (r: Option<String>)
    ensures
        match r {
            Some(s) => throttle_root_spec(*device, driver@) == Some(s@),
            None => throttle_root_spec(*device, driver@) is None,
        },
{
    let d = chars_of(driver);
    let dev = chars_of(device.device_path.as_str());
    if chars_eq(&d, &chars_of("i915")) {
        let card = match &device.card {
            Some(c) => chars_of(c.as_str()),
            None => chars_of("card0"),
        };
        let a = crate::text::join_path_chars(&dev, &chars_of("drm"));
        let b = crate::text::join_path_chars(&a, &card);
        Some(string_of(&crate::text::join_path_chars(&b, &chars_of("gt/gt0"))))
    } else if chars_eq(&d, &chars_of("xe")) {
        Some(string_of(&crate::text::join_path_chars(&dev, &chars_of("tile0/gt0/freq0/throttle"))))
    } else {
        None
    }
}

/// The throttle states and the reason files each is read from: a state is
/// active when any of its files holds a number above zero.
pub open spec fn throttle_groups_spec() -> Seq<(Seq<char>, Seq<Seq<char>>)> {
    seq![
        ("power"@, seq!["reason_pl1"@, "reason_pl2"@]),
        ("current"@, seq!["reason_pl4"@, "reason_vr_tdc"@]),
        ("thermal"@, seq!["reason_prochot"@, "reason_ratl"@, "reason_thermal"@, "reason_vr_thermalert"@]),
    ]
}

pub fn throttle_groups() -> (r: Vec<(&'static str, Vec<&'static str>)>)
    ensures
        r@.len() == throttle_groups_spec().len(),
        forall|k: int|
            0 <= k < r@.len() ==> (#[trigger] r@[k]).0@ == throttle_groups_spec()[k].0 && r@[k].1@.map_values(
                |s: &'static str| s@,
            ) == throttle_groups_spec()[k].1,
{
    let mut power: Vec<&'static str> = Vec::new();
    power.push("reason_pl1");
    power.push("reason_pl2");
    let mut current: Vec<&'static str> = Vec::new();
    current.push("reason_pl4");
    current.push("reason_vr_tdc");
    let mut thermal: Vec<&'static str> = Vec::new();
    thermal.push("reason_prochot");
    thermal.push("reason_ratl");
    thermal.push("reason_thermal");
    thermal.push("reason_vr_thermalert");
    assert(power@.map_values(|s: &'static str| s@) =~= throttle_groups_spec()[0].1);
    assert(current@.map_values(|s: &'static str| s@) =~= throttle_groups_spec()[1].1);
    assert(thermal@.map_values(|s: &'static str| s@) =~= throttle_groups_spec()[2].1);
    let mut r: Vec<(&'static str, Vec<&'static str>)> = Vec::new();
    r.push(("power", power));
    r.push(("current", current));
    r.push(("thermal", thermal));
    r
}

pub open spec fn positive(o: Option<u64>) -> bool {
    match o {
        Some(v) => v > 0,
        None => false,
    }
}

/// Whether any of the reason files read (a missing file reads as none)
/// holds a number above zero.
pub fn throttle_active(values: &[Option<u64>]) -> (r: bool)
    ensures
        r == exists|k: int| 0 <= k < values@.len() && positive(#[trigger] values@[k]),
{
    let mut i: usize = 0;
    while i < values.len()
        invariant
            0 <= i <= values@.len(),
            forall|k: int| 0 <= k < i ==> !positive(#[trigger] values@[k]),
        decreases values.len() - i,
    {
        match values[i] {
            Some(v) => {
                if v > 0 {
                    return true;
                }
            },
            None => {},
        }
        i += 1;
    }
    false
}

/// The increase of a counter since its previous reading; none without a
/// previous reading or when the counter went back.
pub fn counter_delta(previous: Option<u64>, current: u64) -> (r: Option<u64>)
    ensures
        match previous {
            Some(p) => if current >= p {
                r == Some((current - p) as u64)
            } else {
                r is None
            },
            None => r is None,
        },
{
    match previous {
        Some(p) => if current >= p {
            Some(current - p)
        } else {
            None
        },
        None => None,
    }
}

// ---------------------------------------------------------------------------
// fdinfo
// ---------------------------------------------------------------------------

/// The key-value pairs of an `fdinfo` file: each line with a `:` gives a
/// trimmed key and value; a later key replaces an earlier one.
pub open spec fn fdinfo_pairs(ls: Seq<Seq<char>>) -> Map<Seq<char>, Seq<char>>
    decreases ls.len(),
{
    if ls.len() == 0 {
        Map::empty()
    } else {
        let m = fdinfo_pairs(ls.drop_last());
        match split_once(ls.last(), ':') {
            Some((k, v)) => m.insert(trim(k), trim(v)),
            None => m,
        }
    }
}

pub fn parse_fdinfo(text: &str) -> (r: LabelSet)
    ensures
        r.wf(),
        r.map() == fdinfo_pairs(lines(text@)),
{
    let chars = chars_of(text);
    let ls = lines_of(&chars);
    let ghost spec_ls = lines(text@);
    let mut set = LabelSet::new();
    let mut i: usize = 0;
    while i < ls.len()
        invariant
            0 <= i <= ls@.len() == spec_ls.len(),
            spec_ls == lines(text@),
            forall|k: int| 0 <= k < ls@.len() ==> (#[trigger] ls@[k])@ == spec_ls[k],
            set.wf(),
            set.map() == fdinfo_pairs(spec_ls.take(i as int)),
        decreases ls.len() - i,
    {
        assert(spec_ls.take(i + 1).drop_last() =~= spec_ls.take(i as int));
        assert(ls@[i as int]@ == spec_ls[i as int]);
        match split_once_chars(&ls[i], ':') {
            Some((k, v)) => {
                set.insert(string_of(&trim_chars(&k)), string_of(&trim_chars(&v)));
            },
            None => {},
        }
        i += 1;
    }
    assert(spec_ls.take(ls@.len() as int) =~= spec_ls);
    set
}

/// The number at the start of a value (`"123 ns"`), or 0.
pub open spec fn value_number_spec(v: Seq<char>) -> nat {
    let parts = runs(v, CharClass::NonWhitespace);
    if parts.len() == 0 {
        0
    } else {
        match parse_unsigned(parts[0], 10, u64::MAX as nat) {
            Some(n) => n,
            None => 0,
        }
    }
}

pub fn value_number(value: &str) -> (r: u64)
    ensures
        r as nat == value_number_spec(value@),
{
    let parts = runs_of(&chars_of(value), CharClass::NonWhitespace);
    if parts.len() == 0 {
        return 0;
    }
    match parse_u64_chars(&parts[0]) {
        Some(n) => n,
        None => 0,
    }
}

/// A key counting busy time of an engine (`drm-engine-*`, `drm-cycles-*`).
pub open spec fn engine_key_spec(k: Seq<char>) -> bool {
    starts_with(k, "drm-engine-"@) || starts_with(k, "drm-cycles-"@)
}

pub fn is_engine_key(key: &str) -> (r: bool)
    ensures
        r == engine_key_spec(key@),
{
    let k = chars_of(key);
    starts_with_chars(&k, &chars_of("drm-engine-")) || starts_with_chars(&k, &chars_of("drm-cycles-"))
}

/// The memory a `drm-resident-*` key counts: device memory (`local`,
/// `vram`) or system memory.
pub open spec fn resident_memory_spec(k: Seq<char>) -> Option<Seq<char>> {
    if starts_with(k, "drm-resident-"@) {
        if contains(k, "local"@) || contains(k, "vram"@) {
            Some("vram"@)
        } else {
            Some("system"@)
        }
    } else {
        None
    }
}

pub fn resident_memory(key: &str) -> (r: Option<&'static str>)
    ensures
        match r {
            Some(m) => resident_memory_spec(key@) == Some(m@),
            None => resident_memory_spec(key@) is None,
        },
{
    let k = chars_of(key);
    if !starts_with_chars(&k, &chars_of("drm-resident-")) {
        return None;
    }
    if contains_chars(&k, &chars_of("local")) || contains_chars(&k, &chars_of("vram")) {
        Some("vram")
    } else {
        Some("system")
    }
}

/// Whether a client's `fdinfo` is about this GPU: the same driver, and the
/// same PCI device when both name one.
pub open spec fn fdinfo_for_device_spec(m: Map<Seq<char>, Seq<char>>, driver: Seq<char>, pci_bdf: Option<Seq<char>>) -> bool {
    m.contains_key("drm-driver"@) && m["drm-driver"@] == driver && match pci_bdf {
        Some(b) => !m.contains_key("drm-pdev"@) || m["drm-pdev"@] == b,
        None => true,
    }
}

pub fn fdinfo_for_device(parsed: &LabelSet, driver: &str, pci_bdf: Option<&str>) -> (r: bool)
    requires
        parsed.wf(),
    ensures
        r == fdinfo_for_device_spec(
            parsed.map(),
            driver@,
            match pci_bdf {
                Some(b) => Some(b@),
                None => None,
            },
        ),
{
    match parsed.get("drm-driver") {
        Some(d) => {
            if !chars_eq(&chars_of(d.as_str()), &chars_of(driver)) {
                return false;
            }
        },
        None => {
            return false;
        },
    }
    match pci_bdf {
        Some(expected) => match parsed.get("drm-pdev") {
            Some(actual) => chars_eq(&chars_of(actual.as_str()), &chars_of(expected)),
            None => true,
        },
        None => true,
    }
}

/// The key a process's engine time on a GPU is remembered under.
pub fn engine_counter_key(device: &LinuxGpuDevice, pid: u32, driver: &str) -> (r: String)
    ensures
        r@ == device.stable_id_spec() + seq![':'] + decimal(pid as nat) + seq![':'] + driver@
            + ":engine"@,
{
    let mut out = chars_of(device.stable_id().as_str());
    out.push(':');
    out = concat(&out, &decimal_chars(pid as u64));
    out.push(':');
    out = concat(&out, &chars_of(driver));
    out = concat(&out, &chars_of(":engine"));
    string_of(&out)
}

/// The collector's configuration and the errors it has counted.
#[derive(Debug, Clone)]
pub struct LinuxDrmCollector {
    pub config: crate::config::LinuxDrmConfig,
    pub errors_total: u64,
}

impl LinuxDrmCollector {
    pub fn new(config: crate::config::LinuxDrmConfig) -> (r: Self)
        ensures
            r.config == config,
            r.errors_total == 0,
    {
        LinuxDrmCollector { config, errors_total: 0 }
    }

    /// The discovery line: the root is missing, it could not be read, or
    /// the GPUs found and how many of them are supported.
    pub fn discover_summary(root_exists: bool, root_error: Option<String>, devices: usize, supported: usize) -> (r: String)
        ensures
            r@ == (if !root_exists {
                "unavailable, root missing"@
            } else {
                match root_error {
                    Some(e) => "error: "@ + e@,
                    None => "available, devices="@ + decimal(devices as nat) + ", supported_devices="@
                        + decimal(supported as nat),
                }
            }),
    {
        if !root_exists {
            return string_of(&chars_of("unavailable, root missing"));
        }
        match root_error {
            Some(e) => string_of(&concat(&chars_of("error: "), &chars_of(e.as_str()))),
            None => {
                let mut out = chars_of("available, devices=");
                out = concat(&out, &decimal_chars(devices as u64));
                out = concat(&out, &chars_of(", supported_devices="));
                out = concat(&out, &decimal_chars(supported as u64));
                string_of(&out)
            },
        }
    }
}

/// What the inspection of the DRM root found: the root, whether it exists,
/// the error met reading it, and each GPU found.
#[derive(Debug, Clone)]
pub struct LinuxDrmInspection {
    pub drm_root: String,
    pub root_exists: bool,
    pub root_error: Option<String>,
    pub devices: Vec<LinuxDrmDeviceInspection>,
}

/// One GPU of the inspection, whether its driver is supported, and its
/// hwmon directories.
#[derive(Debug, Clone)]
pub struct LinuxDrmDeviceInspection {
    pub node_name: String,
    pub render_node: Option<String>,
    pub card: Option<String>,
    pub device_path: String,
    pub pci_bdf: Option<String>,
    pub vendor_id: Option<String>,
    pub device_id: Option<String>,
    pub driver: Option<String>,
    pub supported: bool,
    pub hwmon_dirs: Vec<String>,
}

impl LinuxDrmDeviceInspection {
    /// The inspection of `device`, with the hwmon directories found under
    /// it: supported when its driver is one this collector reads.
    pub fn from_device(device: LinuxGpuDevice, hwmon_dirs: Vec<String>) -> (r: Self)
        ensures
            r.supported == supported_driver_spec(device.backend_driver_spec()),
            r.node_name == device.node_name,
            r.render_node == device.render_node,
            r.card == device.card,
            r.device_path == device.device_path,
            r.pci_bdf == device.pci_bdf,
            r.vendor_id == device.vendor_id,
            r.device_id == device.device_id,
            r.driver == device.driver,
            r.hwmon_dirs == hwmon_dirs,
    {
        let supported = supported_driver(device.backend_driver());
        LinuxDrmDeviceInspection {
            node_name: device.node_name,
            render_node: device.render_node,
            card: device.card,
            device_path: device.device_path,
            pci_bdf: device.pci_bdf,
            vendor_id: device.vendor_id,
            device_id: device.device_id,
            driver: device.driver,
            supported,
            hwmon_dirs,
        }
    }
}

/// How many of the devices are supported.
pub open spec fn supported_count(d: Seq<LinuxDrmDeviceInspection>) -> nat
    decreases d.len(),
{
    if d.len() == 0 {
        0
    } else {
        supported_count(d.drop_last()) + if d.last().supported {
            1nat
        } else {
            0nat
        }
    }
}

pub proof fn lemma_supported_count_le(d: Seq<LinuxDrmDeviceInspection>)
    ensures
        supported_count(d) <= d.len(),
    decreases d.len(),
{
    if d.len() > 0 {
        lemma_supported_count_le(d.drop_last());
    }
}

impl LinuxDrmInspection {
    /// The number of supported devices.
    pub fn supported_devices(&self) -> (r: usize)
        ensures
            r == supported_count(self.devices@),
    {
        let mut n: usize = 0;
        let mut i: usize = 0;
        while i < self.devices.len()
            invariant
                0 <= i <= self.devices@.len(),
                n == supported_count(self.devices@.take(i as int)),
            decreases self.devices.len() - i,
        {
            assert(self.devices@.take(i + 1).drop_last() =~= self.devices@.take(i as int));
            proof {
                lemma_supported_count_le(self.devices@.take(i as int));
            }
            if self.devices[i].supported {
                n += 1;
            }
            i += 1;
        }
        assert(self.devices@.take(self.devices.len() as int) =~= self.devices@);
        n
    }

    /// The discovery line of this inspection.
    pub fn summary(&self) -> (r: String)
        ensures
            r@ == (if !self.root_exists {
                "unavailable, root missing"@
            } else {
                match self.root_error {
                    Some(e) => "error: "@ + e@,
                    None => "available, devices="@ + decimal(self.devices@.len()) + ", supported_devices="@
                        + decimal(supported_count(self.devices@)),
                }
            }),
    {
        let supported = self.supported_devices();
        LinuxDrmCollector::discover_summary(
            self.root_exists,
            self.root_error.clone(),
            self.devices.len(),
            supported,
        )
    }
}

/// The engine time an `fdinfo` file counts: the sum of the numbers of its
/// engine keys.
pub open spec fn engine_entries_sum(s: Seq<(String, String)>) -> nat
    decreases s.len(),
{
    if s.len() == 0 {
        0
    } else {
        engine_entries_sum(s.drop_last()) + if engine_key_spec(s.last().0@) {
            value_number_spec(s.last().1@)
        } else {
            0
        }
    }
}

/// The client a file belongs to, if it names one.
pub open spec fn client_id_spec(m: Map<Seq<char>, Seq<char>>) -> Option<Seq<char>> {
    if m.contains_key("drm-client-id"@) {
        Some(m["drm-client-id"@])
    } else {
        None
    }
}

/// Of the first `n` files, the positions of those counted for the GPU, and
/// the clients seen: a file is counted when it is about the GPU and its
/// client (if it names one) was not counted before.
pub open spec fn counted_files(
    fs: Seq<LabelSet>,
    driver: Seq<char>,
    pci_bdf: Option<Seq<char>>,
    n: int,
) -> (Seq<int>, Set<Seq<char>>)
    decreases n,
{
    if n <= 0 {
        (seq![], Set::empty())
    } else {
        let (acc, seen) = counted_files(fs, driver, pci_bdf, n - 1);
        let m = fs[n - 1].map();
        if !fdinfo_for_device_spec(m, driver, pci_bdf) {
            (acc, seen)
        } else {
            match client_id_spec(m) {
                Some(c) => if seen.contains(c) {
                    (acc, seen)
                } else {
                    (acc.push(n - 1), seen.insert(c))
                },
                None => (acc.push(n - 1), seen),
            }
        }
    }
}

/// The engine time of the counted files.
pub open spec fn counted_engine_sum(fs: Seq<LabelSet>, acc: Seq<int>) -> nat
    decreases acc.len(),
{
    if acc.len() == 0 {
        0
    } else {
        counted_engine_sum(fs, acc.drop_last()) + engine_entries_sum(fs[acc.last()].entries@)
    }
}

/// The `fdinfo` files of a process counted for one GPU, and their engine
/// time (saturating at the largest `u64`).
pub struct FdinfoClients {
    pub counted: Vec<usize>,
    pub engine_ns: u64,
}

pub open spec fn sat_u64(n: nat) -> u64 {
    if n > u64::MAX {
        u64::MAX
    } else {
        n as u64
    }
}

fn engine_sum_of(parsed: &LabelSet) -> (r: u64)
    ensures
        r == sat_u64(engine_entries_sum(parsed.entries@)),
{
    let ghost s = parsed.entries@;
    let mut total: u64 = 0;
    let mut i: usize = 0;
    while i < parsed.entries.len()
        invariant
            0 <= i <= s.len(),
            s == parsed.entries@,
            total == sat_u64(engine_entries_sum(s.take(i as int))),
        decreases parsed.entries.len() - i,
    {
        assert(s.take(i + 1).drop_last() =~= s.take(i as int));
        if is_engine_key(parsed.entries[i].0.as_str()) {
            total = total.saturating_add(value_number(parsed.entries[i].1.as_str()));
        }
        i += 1;
    }
    assert(s.take(s.len() as int) =~= s);
    total
}

fn seen_contains(seen: &Vec<String>, c: &str) -> (r: bool)
    ensures
        r == seen@.map_values(|x: String| x@).contains(c@),
{
    let ghost sv = seen@.map_values(|x: String| x@);
    let mut i: usize = 0;
    while i < seen.len()
        invariant
            0 <= i <= seen@.len(),
            sv == seen@.map_values(|x: String| x@),
            forall|k: int| 0 <= k < i ==> sv[k] != c@,
        decreases seen.len() - i,
    {
        if chars_eq(&chars_of(seen[i].as_str()), &chars_of(c)) {
            assert(sv[i as int] == c@);
            return true;
        }
        i += 1;
    }
    false
}

/// The files of a process's `fdinfo` that count for a GPU: about its driver
/// and PCI device, and each client once (its first file); with the engine
/// time they count together, saturating.
pub fn fdinfo_clients(files: &[LabelSet], driver: &str, pci_bdf: Option<&str>) -> (r: FdinfoClients)
    requires
        forall|i: int| 0 <= i < files@.len() ==> (#[trigger] files@[i]).wf(),
    ensures
        r.counted@.map_values(|i: usize| i as int) == counted_files(
            files@,
            driver@,
            match pci_bdf {
                Some(b) => Some(b@),
                None => None,
            },
            files@.len() as int,
        ).0,
        r.engine_ns == sat_u64(
            counted_engine_sum(
                files@,
                counted_files(
                    files@,
                    driver@,
                    match pci_bdf {
                        Some(b) => Some(b@),
                        None => None,
                    },
                    files@.len() as int,
                ).0,
            ),
        ),
{
    let ghost bdf = match pci_bdf {
        Some(b) => Some(b@),
        None => None::<Seq<char>>,
    };
    let mut counted: Vec<usize> = Vec::new();
    let mut seen: Vec<String> = Vec::new();
    let mut total: u64 = 0;
    let mut i: usize = 0;
    while i < files.len()
        invariant
            0 <= i <= files@.len(),
            forall|k: int| 0 <= k < files@.len() ==> (#[trigger] files@[k]).wf(),
            bdf == match pci_bdf {
                Some(b) => Some(b@),
                None => None::<Seq<char>>,
            },
            counted@.map_values(|k: usize| k as int) == counted_files(files@, driver@, bdf, i as int).0,
            seen@.map_values(|x: String| x@).to_set() == counted_files(files@, driver@, bdf, i as int).1,
            total == sat_u64(counted_engine_sum(files@, counted_files(files@, driver@, bdf, i as int).0)),
        decreases files.len() - i,
    {
        let ghost acc = counted_files(files@, driver@, bdf, i as int).0;
        let ghost seen_set = counted_files(files@, driver@, bdf, i as int).1;
        let ghost before = counted@;
        let ghost seen_before = seen@;
        let parsed = &files[i];
        proof {
            reveal_strlit("drm-client-id");
        }
        if fdinfo_for_device(parsed, driver, pci_bdf) {
            let fresh = match parsed.get("drm-client-id") {
                Some(c) => {
                    if seen_contains(&seen, c.as_str()) {
                        assert(seen_set.contains(c@));
                        false
                    } else {
                        proof {
                            assert(!seen_set.contains(c@));
                        }
                        seen.push(c);
                        assert(seen@.map_values(|x: String| x@) =~= seen_before.map_values(|x: String| x@).push(
                            c@,
                        ));
                        proof {
                            seen_before.map_values(|x: String| x@).lemma_push_to_set_commute(c@);
                        }
                        true
                    }
                },
                None => true,
            };
            if fresh {
                counted.push(i);
                assert(counted@.map_values(|k: usize| k as int) =~= before.map_values(|k: usize| k as int).push(
                    i as int,
                ));
                let ghost acc2 = acc.push(i as int);
                assert(acc2.drop_last() =~= acc);
                let e = engine_sum_of(parsed);
                total = total.saturating_add(e);
            }
        }
        i += 1;
    }
    FdinfoClients { counted, engine_ns: total }
}

} // verus!
