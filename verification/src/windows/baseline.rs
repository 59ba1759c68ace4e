//! The Windows baseline collector's own rules: which network interfaces
//! and drives are reported, the CPU busy share between two readings, and
//! what discovery reports.

use vstd::prelude::*;

use crate::config::WindowsBaselineConfig;
use crate::text::{chars_of, concat, contains, contains_chars, decimal, decimal_chars, lower_seq, string_of, to_lower_chars, trim, trim_chars};

verus! {

pub const COLLECTOR_NAME: &'static str = "windows_baseline";
pub const SOURCE: &'static str = "windows_api";

/// The patterns of an interface filter: trimmed, lower-cased, without
/// blank ones.
pub open spec fn patterns_spec(values: Seq<String>) -> Seq<Seq<char>>
    decreases values.len(),
{
    if values.len() == 0 {
        seq![]
    } else {
        let rest = patterns_spec(values.drop_last());
        let p = lower_seq(trim(values.last()@));
        if p.len() == 0 {
            rest
        } else {
            rest.push(p)
        }
    }
}

pub fn normalized_patterns(values: &[String]) -> (r: Vec<String>)
    ensures
        r@.map_values(|s: String| s@) == patterns_spec(values@),
{
    let mut out: Vec<String> = Vec::new();
    let mut i: usize = 0;
    while i < values.len()
        invariant
            0 <= i <= values@.len(),
            out@.map_values(|s: String| s@) == patterns_spec(values@.take(i as int)),
        decreases values.len() - i,
    {
        assert(values@.take(i + 1).drop_last() =~= values@.take(i as int));
        let p = to_lower_chars(&trim_chars(&chars_of(values[i].as_str())));
        if p.len() > 0 {
            out.push(string_of(&p));
        }
        assert(out@.map_values(|s: String| s@) =~= patterns_spec(values@.take(i + 1)));
        i += 1;
    }
    assert(values@.take(values@.len() as int) =~= values@);
    out
}

pub open spec fn any_pattern_in(patterns: Seq<Seq<char>>, name: Seq<char>) -> bool {
    exists|k: int| 0 <= k < patterns.len() && contains(name, #[trigger] patterns[k])
}

/// Whether an interface is reported: its lower-cased name holds one of
/// the allowlist's patterns (when there are any) and none of the
/// denylist's.
pub open spec fn interface_allowed_spec(config: WindowsBaselineConfig, name: Seq<char>) -> bool {
    let n = lower_seq(name);
    let allow = patterns_spec(config.network_interface_allowlist@);
    let deny = patterns_spec(config.network_interface_denylist@);
    (allow.len() == 0 || any_pattern_in(allow, n)) && !any_pattern_in(deny, n)
}

fn any_in(patterns: &Vec<String>, name: &Vec<char>) -> (r: bool)
    ensures
        r == any_pattern_in(patterns@.map_values(|s: String| s@), name@),
{
    let ghost pv = patterns@.map_values(|s: String| s@);
    let mut i: usize = 0;
    while i < patterns.len()
        invariant
            0 <= i <= patterns@.len(),
            pv == patterns@.map_values(|s: String| s@),
            forall|k: int| 0 <= k < i ==> !contains(name@, #[trigger] pv[k]),
        decreases patterns.len() - i,
    {
        if contains_chars(name, &chars_of(patterns[i].as_str())) {
            assert(contains(name@, pv[i as int]));
            return true;
        }
        i += 1;
    }
    false
}

pub fn interface_allowed(config: &WindowsBaselineConfig, name: &str) -> (r: bool)
    ensures
        r == interface_allowed_spec(*config, name@),
{
    let n = to_lower_chars(&chars_of(name));
    let allow = normalized_patterns(config.network_interface_allowlist.as_slice());
    let deny = normalized_patterns(config.network_interface_denylist.as_slice());
    if allow.len() > 0 && !any_in(&allow, &n) {
        return false;
    }
    !any_in(&deny, &n)
}

/// The label of a drive type (Win32's `GetDriveTypeW` values): fixed,
/// removable, remote and RAM disks are reported, CD-ROMs and unknown
/// drives are not.
pub open spec fn drive_type_spec(value: u32) -> Option<Seq<char>> {
    if value == 3 {
        Some("fixed"@)
    } else if value == 2 {
        Some("removable"@)
    } else if value == 4 {
        Some("remote"@)
    } else if value == 6 {
        Some("ramdisk"@)
    } else {
        None
    }
}

pub fn drive_type_label(value: u32) -> (r: Option<&'static str>)
    ensures
        match r {
            Some(s) => drive_type_spec(value) == Some(s@),
            None => drive_type_spec(value) is None,
        },
{
    if value == 3 {
        Some("fixed")
    } else if value == 2 {
        Some("removable")
    } else if value == 4 {
        Some("remote")
    } else if value == 6 {
        Some("ramdisk")
    } else {
        None
    }
}

/// Whether a drive of a type is reported: fixed drives always, removable
/// and remote drives when the configuration asks for them.
pub fn drive_reported(config: &WindowsBaselineConfig, drive_type: u32) -> (r: bool)
    ensures
        r == (drive_type == 3 || (drive_type == 2 && config.include_removable_drives) || (drive_type
            == 4 && config.include_remote_drives)),
{
    if drive_type_label(drive_type).is_none() {
        return false;
    }
    if drive_type == 2 && !config.include_removable_drives {
        return false;
    }
    if drive_type == 4 && !config.include_remote_drives {
        return false;
    }
    drive_type == 3 || drive_type == 2 || drive_type == 4
}

/// A drive's volume name: its letter and a colon.
pub fn volume_name(index: u8) -> (r: String)
    requires
        index < 26,
    ensures
        r@ == seq![((65 + index) as u32) as char, ':'],
{
    let mut v: Vec<char> = Vec::new();
    v.push(crate::text::char_from_ascii(65 + index));
    v.push(':');
    string_of(&v)
}

/// A `FILETIME`: its high and low halves as one 64-bit count.
pub fn filetime_to_u64(high: u32, low: u32) -> (r: u64)
    ensures
        r as int == high as int * 0x1_0000_0000 + low as int,
{
    crate::game::gamescope_wayland::frametime_ns_from_parts(low, high)
}

/// The CPU's idle, kernel and user times (kernel time includes idle time).
#[derive(Debug, Clone, Copy, PartialEq, Eq, Structural)]
pub struct CpuTimes {
    pub idle: u64,
    pub kernel: u64,
    pub user: u64,
}

/// The busy and total time between two readings: none when no time passed
/// or idle time exceeds it.
pub open spec fn cpu_busy_spec(previous: CpuTimes, current: CpuTimes) -> Option<(u64, u64)> {
    let idle = if current.idle >= previous.idle { current.idle - previous.idle } else { 0 };
    let kernel = if current.kernel >= previous.kernel { current.kernel - previous.kernel } else { 0 };
    let user = if current.user >= previous.user { current.user - previous.user } else { 0 };
    let total = if kernel + user > u64::MAX { u64::MAX as int } else { kernel + user };
    if total == 0 || idle > total {
        None
    } else {
        Some(((total - idle) as u64, total as u64))
    }
}

pub fn cpu_busy_delta(previous: CpuTimes, current: CpuTimes) -> (r: Option<(u64, u64)>)
    ensures
        r == cpu_busy_spec(previous, current),
{
    let idle = current.idle.saturating_sub(previous.idle);
    let kernel = current.kernel.saturating_sub(previous.kernel);
    let user = current.user.saturating_sub(previous.user);
    let total = kernel.saturating_add(user);
    if total == 0 || idle > total {
        return None;
    }
    Some((total - idle, total))
}

/// The memory in use: the total less what is available (never below 0).
pub fn memory_used(total_bytes: u64, available_bytes: u64) -> (r: u64)
    ensures
        r == (if total_bytes >= available_bytes { total_bytes - available_bytes } else { 0 }),
{
    total_bytes.saturating_sub(available_bytes)
}

#[derive(Debug, Clone, PartialEq, Eq)]
pub struct WindowsBaselineInspection {
    pub enabled: bool,
    pub supported: bool,
    pub status: String,
    pub message: Option<String>,
}

/// The collector's configuration, its previous CPU reading and the errors
/// it has counted.
#[derive(Debug, Clone)]
pub struct WindowsBaselineCollector {
    pub config: WindowsBaselineConfig,
    pub previous_cpu: Option<CpuTimes>,
    pub errors_total: u64,
}

impl WindowsBaselineCollector {
    pub fn new(config: WindowsBaselineConfig) -> (r: Self)
        ensures
            r.config == config,
            r.previous_cpu is None,
            r.errors_total == 0,
    {
        WindowsBaselineCollector { config, previous_cpu: None, errors_total: 0 }
    }

    /// Takes a CPU reading: the busy and total time since the previous one.
    pub fn cpu_usage(&mut self, current: CpuTimes) -> (r: Option<(u64, u64)>)
        ensures
            final(self).previous_cpu == Some(current),
            final(self).config == old(self).config,
            final(self).errors_total == old(self).errors_total,
            r == (match old(self).previous_cpu {
                Some(p) => cpu_busy_spec(p, current),
                None => None,
            }),
    {
        let previous = self.previous_cpu;
        self.previous_cpu = Some(current);
        match previous {
            Some(p) => cpu_busy_delta(p, current),
            None => None,
        }
    }

    /// The discovery line.
    pub fn discover_summary(config: &WindowsBaselineConfig, on_windows: bool) -> (r: String)
        ensures
            r@ == (if !config.enabled {
                "disabled"@
            } else if on_windows {
                "available"@
            } else {
                "unsupported on this OS"@
            }),
    {
        if !config.enabled {
            return string_of(&chars_of("disabled"));
        }
        if on_windows {
            string_of(&chars_of("available"))
        } else {
            string_of(&chars_of("unsupported on this OS"))
        }
    }
}

pub fn inspect_hardware(config: &WindowsBaselineConfig, on_windows: bool) -> (r: WindowsBaselineInspection)
    ensures
        !config.enabled ==> !r.enabled && !r.supported && r.status@ == "disabled"@ && r.message is None,
        config.enabled && on_windows ==> r.enabled && r.supported && r.status@ == "available"@
            && r.message is None,
        config.enabled && !on_windows ==> r.enabled && !r.supported && r.status@ == "unsupported"@
            && r.message is Some && r.message->0@ == "windows_baseline is unsupported on this OS"@,
{
    if !config.enabled {
        return WindowsBaselineInspection {
            enabled: false,
            supported: false,
            status: string_of(&chars_of("disabled")),
            message: None,
        };
    }
    if on_windows {
        WindowsBaselineInspection {
            enabled: true,
            supported: true,
            status: string_of(&chars_of("available")),
            message: None,
        }
    } else {
        WindowsBaselineInspection {
            enabled: true,
            supported: false,
            status: string_of(&chars_of("unsupported")),
            message: Some(string_of(&chars_of("windows_baseline is unsupported on this OS"))),
        }
    }
}

} // verus!
