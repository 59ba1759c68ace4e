//! The Windows inventory collector's own rules: how the identity of the
//! system, the CPU and the computer is assembled from what Windows and the
//! environment say, and what discovery reports.

use vstd::prelude::*;

use crate::config::WindowsInventoryConfig;
use crate::metrics::LabelSet;
use crate::text::{chars_of, concat, decimal, decimal_chars, string_of, trim, trim_chars};

verus! {

pub const COLLECTOR_NAME: &'static str = "windows_inventory";
pub const SOURCE: &'static str = "windows_api";

#[derive(Debug, Clone, PartialEq, Eq)]
pub struct WindowsOsInspection {
    pub version: String,
    pub build: String,
    pub arch: String,
}

#[derive(Debug, Clone, PartialEq, Eq)]
pub struct WindowsCpuInspection {
    pub model: String,
    pub architecture: String,
    pub logical_processors: u32,
}

#[derive(Debug, Clone, PartialEq, Eq)]
pub struct WindowsComputerInspection {
    pub computer_name: String,
    pub arch: String,
}

#[derive(Debug, Clone, PartialEq, Eq)]
pub struct WindowsInventory {
    pub os: WindowsOsInspection,
    pub cpu: WindowsCpuInspection,
    pub computer: WindowsComputerInspection,
}

#[derive(Debug, Clone, PartialEq, Eq)]
pub struct WindowsInventoryInspection {
    pub enabled: bool,
    pub supported: bool,
    pub status: String,
    pub message: Option<String>,
    pub os: Option<WindowsOsInspection>,
    pub cpu: Option<WindowsCpuInspection>,
    pub computer: Option<WindowsComputerInspection>,
}

/// The Windows version as `<major>.<minor>`.
pub fn windows_version_text(major: u32, minor: u32) -> (r: String)
    ensures
        r@ == decimal(major as nat) + seq!['.'] + decimal(minor as nat),
{
    let mut v = decimal_chars(major as u64);
    v.push('.');
    string_of(&concat(&v, &decimal_chars(minor as u64)))
}

/// The number of logical processors (at least one).
pub fn logical_processors(reported: u32) -> (r: u32)
    ensures
        r == (if reported == 0 { 1 } else { reported }),
{
    if reported == 0 {
        1
    } else {
        reported
    }
}

pub open spec fn non_blank(o: Option<Seq<char>>) -> Option<Seq<char>> {
    match o {
        Some(s) => if trim(s).len() > 0 {
            Some(s)
        } else {
            None
        },
        None => None,
    }
}

pub open spec fn opt_view(o: Option<String>) -> Option<Seq<char>> {
    match o {
        Some(s) => Some(s@),
        None => None,
    }
}

fn non_blank_exec(o: Option<String>) -> (r: Option<String>)
    ensures
        opt_view(r) == non_blank(opt_view(o)),
{
    match o {
        Some(s) => if trim_chars(&chars_of(s.as_str())).len() > 0 {
            Some(s)
        } else {
            None
        },
        None => None,
    }
}

/// The CPU's model: the registry's processor name, or else the
/// environment's processor identifier; `unknown` when the one found is
/// blank or there is none.
pub fn cpu_model(registry: Option<String>, environment: Option<String>) -> (r: String)
    ensures
        r@ == (match non_blank(
            match opt_view(registry) {
                Some(s) => Some(s),
                None => opt_view(environment),
            },
        ) {
            Some(s) => s,
            None => "unknown"@,
        }),
{
    let found = match registry {
        Some(s) => Some(s),
        None => environment,
    };
    match non_blank_exec(found) {
        Some(s) => s,
        None => string_of(&chars_of("unknown")),
    }
}

/// The CPU's architecture: the environment's, unless blank, else the
/// build's.
pub fn cpu_architecture(environment: Option<String>, build_arch: &str) -> (r: String)
    ensures
        r@ == (match non_blank(opt_view(environment)) {
            Some(s) => s,
            None => build_arch@,
        }),
{
    match non_blank_exec(environment) {
        Some(s) => s,
        None => string_of(&chars_of(build_arch)),
    }
}

/// The computer's name: what Windows says, else the environment's, else
/// `unknown`.
pub fn computer_name(from_windows: Option<String>, environment: Option<String>) -> (r: String)
    ensures
        r@ == (match opt_view(from_windows) {
            Some(s) => s,
            None => match opt_view(environment) {
                Some(e) => e,
                None => "unknown"@,
            },
        }),
{
    match from_windows {
        Some(s) => s,
        None => match environment {
            Some(e) => e,
            None => string_of(&chars_of("unknown")),
        },
    }
}

/// The labels of the operating system's identity.
pub fn os_info_labels(os: &WindowsOsInspection) -> (r: LabelSet)
    ensures
        r.wf(),
        r.map() == Map::<Seq<char>, Seq<char>>::empty().insert("source"@, SOURCE@).insert(
            "os"@,
            "windows"@,
        ).insert("version"@, os.version@).insert("build"@, os.build@).insert("arch"@, os.arch@),
{
    let mut set = LabelSet::new();
    set.insert(string_of(&chars_of("source")), string_of(&chars_of(SOURCE)));
    set.insert(string_of(&chars_of("os")), string_of(&chars_of("windows")));
    set.insert(string_of(&chars_of("version")), string_of(&chars_of(os.version.as_str())));
    set.insert(string_of(&chars_of("build")), string_of(&chars_of(os.build.as_str())));
    set.insert(string_of(&chars_of("arch")), string_of(&chars_of(os.arch.as_str())));
    set
}

/// The labels of the CPU's identity.
pub fn cpu_info_labels(cpu: &WindowsCpuInspection) -> (r: LabelSet)
    ensures
        r.wf(),
        r.map() == Map::<Seq<char>, Seq<char>>::empty().insert("source"@, SOURCE@).insert(
            "model"@,
            cpu.model@,
        ).insert("architecture"@, cpu.architecture@).insert(
            "logical_processors"@,
            decimal(cpu.logical_processors as nat),
        ),
{
    let mut set = LabelSet::new();
    set.insert(string_of(&chars_of("source")), string_of(&chars_of(SOURCE)));
    set.insert(string_of(&chars_of("model")), string_of(&chars_of(cpu.model.as_str())));
    set.insert(string_of(&chars_of("architecture")), string_of(&chars_of(cpu.architecture.as_str())));
    set.insert(string_of(&chars_of("logical_processors")), string_of(&decimal_chars(cpu.logical_processors as u64)));
    set
}

/// The labels of the computer's identity.
pub fn computer_info_labels(computer: &WindowsComputerInspection) -> (r: LabelSet)
    ensures
        r.wf(),
        r.map() == Map::<Seq<char>, Seq<char>>::empty().insert("source"@, SOURCE@).insert(
            "computer_name"@,
            computer.computer_name@,
        ).insert("arch"@, computer.arch@),
{
    let mut set = LabelSet::new();
    set.insert(string_of(&chars_of("source")), string_of(&chars_of(SOURCE)));
    set.insert(string_of(&chars_of("computer_name")), string_of(&chars_of(computer.computer_name.as_str())));
    set.insert(string_of(&chars_of("arch")), string_of(&chars_of(computer.arch.as_str())));
    set
}

/// The errors the inventory collector has counted.
#[derive(Debug, Clone)]
pub struct WindowsInventoryCollector {
    pub errors_total: u64,
}

impl WindowsInventoryCollector {
    pub fn new(config: WindowsInventoryConfig) -> (r: Self)
        ensures
            r.errors_total == 0,
    {
        WindowsInventoryCollector { errors_total: 0 }
    }

    /// The discovery line.
    pub fn discover_summary(config: &WindowsInventoryConfig, on_windows: bool) -> (r: String)
        ensures
            r@ == (if !config.enabled {
                "disabled"@
            } else if on_windows {
                "available"@
            } else {
                "unsupported on this OS"@
            }),
    {
        if !config.enabled {
            return string_of(&chars_of("disabled"));
        }
        if on_windows {
            string_of(&chars_of("available"))
        } else {
            string_of(&chars_of("unsupported on this OS"))
        }
    }
}

/// The inspection: disabled, unsupported off Windows, or what was
/// collected (or the error that stopped it).
pub fn inspect_hardware(config: &WindowsInventoryConfig, on_windows: bool, collected: Result<WindowsInventory, String>) -> (r: WindowsInventoryInspection)
    ensures
        !config.enabled ==> !r.enabled && !r.supported && r.status@ == "disabled"@ && r.message is None
            && r.os is None && r.cpu is None && r.computer is None,
        config.enabled && !on_windows ==> r.enabled && !r.supported && r.status@ == "unsupported"@
            && r.message is Some && r.message->0@ == "windows_inventory is unsupported on this OS"@
            && r.os is None && r.cpu is None && r.computer is None,
        config.enabled && on_windows ==> r.enabled && r.supported && match collected {
            Ok(inv) => r.status@ == "available"@ && r.message is None && r.os == Some(inv.os) && r.cpu
                == Some(inv.cpu) && r.computer == Some(inv.computer),
            Err(e) => r.status@ == "error"@ && r.message == Some(e) && r.os is None && r.cpu is None
                && r.computer is None,
        },
{
    if !config.enabled {
        return WindowsInventoryInspection {
            enabled: false,
            supported: false,
            status: string_of(&chars_of("disabled")),
            message: None,
            os: None,
            cpu: None,
            computer: None,
        };
    }
    if !on_windows {
        return WindowsInventoryInspection {
            enabled: true,
            supported: false,
            status: string_of(&chars_of("unsupported")),
            message: Some(string_of(&chars_of("windows_inventory is unsupported on this OS"))),
            os: None,
            cpu: None,
            computer: None,
        };
    }
    match collected {
        Ok(inv) => WindowsInventoryInspection {
            enabled: true,
            supported: true,
            status: string_of(&chars_of("available")),
            message: None,
            os: Some(inv.os),
            cpu: Some(inv.cpu),
            computer: Some(inv.computer),
        },
        Err(e) => WindowsInventoryInspection {
            enabled: true,
            supported: true,
            status: string_of(&chars_of("error")),
            message: Some(e),
            os: None,
            cpu: None,
            computer: None,
        },
    }
}

} // verus!
