//! Batteries under `/sys/class/power_supply`: which entries are batteries,
//! how their text attributes are read, the direction of their power, and
//! the labels they are published with.

use vstd::prelude::*;

use crate::metrics::LabelSet;
use crate::text::{chars_eq, chars_of, concat, decimal, decimal_chars, lower_seq, string_of, to_lower_chars, trim, trim_chars};

verus! {

pub const COLLECTOR_NAME: &'static str = "linux_power_supply";
pub const SOURCE: &'static str = "linux_power_supply";

/// A sysfs attribute's text: trimmed, and absent when empty.
pub open spec fn attribute_spec(raw: Seq<char>) -> Option<Seq<char>> {
    if trim(raw).len() == 0 {
        None
    } else {
        Some(trim(raw))
    }
}

pub fn read_attribute_text(raw: &str) -> (r: Option<String>)
    ensures
        match r {
            Some(s) => attribute_spec(raw@) == Some(s@),
            None => attribute_spec(raw@) is None,
        },
{
    let t = trim_chars(&chars_of(raw));
    if t.len() == 0 {
        None
    } else {
        Some(string_of(&t))
    }
}

/// Whether a supply's `type` attribute says it is a battery.
pub fn is_battery_type(supply_type: Option<&str>) -> (r: bool)
    ensures
        r == (match supply_type {
            Some(t) => t@ == "Battery"@,
            None => false,
        }),
{
    match supply_type {
        Some(t) => chars_eq(&chars_of(t), &chars_of("Battery")),
        None => false,
    }
}

/// Which way power flows, from the battery's status.
pub open spec fn direction_spec(status: Option<Seq<char>>) -> Seq<char> {
    match status {
        Some(s) => if lower_seq(trim(s)) == "charging"@ {
            "charge"@
        } else if lower_seq(trim(s)) == "discharging"@ {
            "discharge"@
        } else {
            "unknown"@
        },
        None => "unknown"@,
    }
}

pub fn battery_direction(status: Option<&str>) -> (r: &'static str)
    ensures
        r@ == direction_spec(
            match status {
                Some(s) => Some(s@),
                None => None,
            },
        ),
{
    match status {
        Some(s) => {
            let v = to_lower_chars(&trim_chars(&chars_of(s)));
            if chars_eq(&v, &chars_of("charging")) {
                "charge"
            } else if chars_eq(&v, &chars_of("discharging")) {
                "discharge"
            } else {
                "unknown"
            }
        },
        None => "unknown",
    }
}

/// The labels of a battery's power reading.
pub fn battery_power_labels(name: &str, status: Option<&str>, derived: bool) -> (r: LabelSet)
    ensures
        r.wf(),
        r.map() == Map::<Seq<char>, Seq<char>>::empty().insert("battery"@, name@).insert(
            "direction"@,
            direction_spec(
                match status {
                    Some(s) => Some(s@),
                    None => None,
                },
            ),
        ).insert(
            "derived"@,
            if derived {
                "true"@
            } else {
                "false"@
            },
        ).insert("source"@, SOURCE@),
{
    let mut set = LabelSet::new();
    set.insert(string_of(&chars_of("battery")), string_of(&chars_of(name)));
    set.insert(string_of(&chars_of("direction")), string_of(&chars_of(battery_direction(status))));
    set.insert(
        string_of(&chars_of("derived")),
        string_of(
            &chars_of(
                if derived {
                    "true"
                } else {
                    "false"
                },
            ),
        ),
    );
    set.insert(string_of(&chars_of("source")), string_of(&chars_of(SOURCE)));
    set
}

pub open spec fn opt_insert(m: Map<Seq<char>, Seq<char>>, k: Seq<char>, v: Option<String>) -> Map<Seq<char>, Seq<char>> {
    match v {
        Some(s) => m.insert(k, s@),
        None => m,
    }
}

/// The labels of a battery's identity.
pub fn battery_info_labels(
    name: &str,
    manufacturer: Option<String>,
    model_name: Option<String>,
    technology: Option<String>,
) -> (r: LabelSet)
    ensures
        r.wf(),
        r.map() == opt_insert(
            opt_insert(
                opt_insert(
                    Map::<Seq<char>, Seq<char>>::empty().insert("component"@, "battery"@).insert(
                        "battery"@,
                        name@,
                    ).insert("device_id"@, name@).insert("source"@, SOURCE@),
                    "manufacturer"@,
                    manufacturer,
                ),
                "model"@,
                model_name,
            ),
            "technology"@,
            technology,
        ),
{
    let mut set = LabelSet::new();
    set.insert(string_of(&chars_of("component")), string_of(&chars_of("battery")));
    set.insert(string_of(&chars_of("battery")), string_of(&chars_of(name)));
    set.insert(string_of(&chars_of("device_id")), string_of(&chars_of(name)));
    set.insert(string_of(&chars_of("source")), string_of(&chars_of(SOURCE)));
    match manufacturer {
        Some(v) => set.insert(string_of(&chars_of("manufacturer")), v),
        None => {},
    }
    match model_name {
        Some(v) => set.insert(string_of(&chars_of("model")), v),
        None => {},
    }
    match technology {
        Some(v) => set.insert(string_of(&chars_of("technology")), v),
        None => {},
    }
    set
}

/// The collector's configuration and the errors it has counted.
#[derive(Debug, Clone)]
pub struct LinuxPowerSupplyCollector {
    pub config: crate::config::LinuxPowerSupplyConfig,
    pub errors_total: u64,
}

impl LinuxPowerSupplyCollector {
    pub fn new(config: crate::config::LinuxPowerSupplyConfig) -> (r: Self)
        ensures
            r.config == config,
            r.errors_total == 0,
    {
        LinuxPowerSupplyCollector { config, errors_total: 0 }
    }

    /// The discovery line: the root is missing, it could not be read, or
    /// the batteries found.
    pub fn discover_summary(root_exists: bool, root_error: Option<String>, batteries: usize) -> (r: String)
        ensures
            r@ == (if !root_exists {
                "unavailable, root missing"@
            } else {
                match root_error {
                    Some(e) => "error: "@ + e@,
                    None => "available, batteries="@ + decimal(batteries as nat),
                }
            }),
    {
        if !root_exists {
            return string_of(&chars_of("unavailable, root missing"));
        }
        match root_error {
            Some(e) => string_of(&concat(&chars_of("error: "), &chars_of(e.as_str()))),
            None => string_of(&concat(&chars_of("available, batteries="), &decimal_chars(batteries as u64))),
        }
    }
}

} // verus!
