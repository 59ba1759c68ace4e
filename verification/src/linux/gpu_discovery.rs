//! GPUs found under `/sys/class/drm`: which entries are render nodes and
//! cards, what a device is called, and one record per device.

use vstd::prelude::*;

use crate::text::{
    all_radix_digits, chars_eq, chars_of, contains, contains_chars, is_ascii_digit, lower_seq,
    path_components, path_components_of, starts_with, starts_with_chars, string_of,
    to_lower_chars, trim, trim_chars,
};

verus! {

#[derive(Debug, Clone, PartialEq, Eq)]
pub struct LinuxGpuDevice {
    pub node_name: String,
    pub render_node: Option<String>,
    pub card: Option<String>,
    pub drm_path: String,
    pub device_path: String,
    pub pci_bdf: Option<String>,
    pub vendor_id: Option<String>,
    pub device_id: Option<String>,
    pub driver: Option<String>,
}

impl LinuxGpuDevice {
    pub open spec fn backend_driver_spec(&self) -> Seq<char> {
        match self.driver {
            Some(d) => d@,
            None => "unknown"@,
        }
    }

    /// The kernel driver bound to the device, or `unknown`.
    pub fn backend_driver(&self) -> (r: &str)
        ensures
            r@ == self.backend_driver_spec(),
    {
        match &self.driver {
            Some(d) => d.as_str(),
            None => "unknown",
        }
    }

    pub open spec fn stable_id_spec(&self) -> Seq<char> {
        match self.pci_bdf {
            Some(b) => b@,
            None => match self.card {
                Some(c) => c@,
                None => match self.render_node {
                    Some(r) => r@,
                    None => self.node_name@,
                },
            },
        }
    }

    /// The name that stays the same across boots: the PCI address, else
    /// the card, the render node, or the node name.
    pub fn stable_id(&self) -> (r: String)
        ensures
            r@ == self.stable_id_spec(),
    {
        let s: &str = match &self.pci_bdf {
            Some(b) => b.as_str(),
            None => match &self.card {
                Some(c) => c.as_str(),
                None => match &self.render_node {
                    Some(r) => r.as_str(),
                    None => self.node_name.as_str(),
                },
            },
        };
        string_of(&chars_of(s))
    }
}

/// `<prefix>` followed by at least one digit.
pub open spec fn numbered_node(v: Seq<char>, prefix: Seq<char>) -> bool {
    starts_with(v, prefix) && v.len() > prefix.len() && all_radix_digits(
        v.skip(prefix.len() as int),
        10,
    )
}

fn is_numbered_node(v: &[char], prefix: &[char]) -> (r: bool)
    ensures
        r == numbered_node(v@, prefix@),
{
    if !starts_with_chars(v, prefix) || v.len() <= prefix.len() {
        return false;
    }
    let mut i = prefix.len();
    while i < v.len()
        invariant
            prefix@.len() <= i <= v@.len(),
            forall|k: int| prefix@.len() <= k < i ==> crate::text::is_digit(#[trigger] v@[k]),
        decreases v.len() - i,
    {
        if !is_ascii_digit(v[i]) {
            assert(v@.skip(prefix@.len() as int)[i - prefix@.len()] == v@[i as int]);
            return false;
        }
        i += 1;
    }
    assert forall|k: int| 0 <= k < v@.skip(prefix@.len() as int).len() implies crate::text::is_radix_digit(
        #[trigger] v@.skip(prefix@.len() as int)[k],
        10,
    ) by {
        assert(v@.skip(prefix@.len() as int)[k] == v@[k + prefix@.len()]);
    }
    true
}

/// A render node entry: `renderD<N>`.
pub fn is_render_node_name(value: &str) -> (r: bool)
    ensures
        r == numbered_node(value@, "renderD"@),
{
    is_numbered_node(&chars_of(value), &chars_of("renderD"))
}

/// A card entry: `card<N>`.
pub fn is_card_name(value: &str) -> (r: bool)
    ensures
        r == numbered_node(value@, "card"@),
{
    is_numbered_node(&chars_of(value), &chars_of("card"))
}

/// The last component of a path, as `Path::file_name` gives it (none
/// for a path ending in `..` or without components).
pub open spec fn file_name_spec(p: Seq<char>) -> Option<Seq<char>> {
    let c = path_components(p);
    if c.len() == 0 || c.last() == ".."@ {
        None
    } else {
        Some(c.last())
    }
}

pub fn file_name(path: &str) -> (r: Option<String>)
    ensures
        match r {
            Some(s) => file_name_spec(path@) == Some(s@),
            None => file_name_spec(path@) is None,
        },
{
    let c = path_components_of(&chars_of(path));
    if c.len() == 0 || chars_eq(&c[c.len() - 1], &chars_of("..")) {
        return None;
    }
    Some(string_of(&c[c.len() - 1]))
}

/// The PCI address of a device: the device directory's name when it holds
/// a `:`.
pub open spec fn pci_bdf_of_spec(device_path: Seq<char>) -> Option<Seq<char>> {
    match file_name_spec(device_path) {
        Some(n) => if contains(n, seq![':']) {
            Some(n)
        } else {
            None
        },
        None => None,
    }
}

pub fn pci_bdf_of_device_path(device_path: &str) -> (r: Option<String>)
    ensures
        match r {
            Some(s) => pci_bdf_of_spec(device_path@) == Some(s@),
            None => pci_bdf_of_spec(device_path@) is None,
        },
{
    match file_name(device_path) {
        Some(n) => {
            let colon = vec![':'];
            assert(colon@ =~= seq![':']);
            if contains_chars(&chars_of(n.as_str()), &colon) {
                Some(n)
            } else {
                None
            }
        },
        None => None,
    }
}

/// A sysfs id file's text (`vendor`, `device`): trimmed, lower-cased, and
/// absent when empty.
pub open spec fn sysfs_id_spec(raw: Seq<char>) -> Option<Seq<char>> {
    let v = lower_seq(trim(raw));
    if v.len() == 0 {
        None
    } else {
        Some(v)
    }
}

pub fn sysfs_id(raw: &str) -> (r: Option<String>)
    ensures
        match r {
            Some(s) => sysfs_id_spec(raw@) == Some(s@),
            None => sysfs_id_spec(raw@) is None,
        },
{
    let v = to_lower_chars(&trim_chars(&chars_of(raw)));
    if v.len() == 0 {
        None
    } else {
        Some(string_of(&v))
    }
}

/// Whether a device is already listed (by its device directory).
pub open spec fn listed_device(devices: Seq<LinuxGpuDevice>, device_path: Seq<char>) -> bool {
    exists|i: int| 0 <= i < devices.len() && (#[trigger] devices[i]).device_path@ == device_path
}

/// Adds a device unless one with the same device directory is listed: a
/// render node and its card are the same GPU.
pub fn push_unique_device(devices: &mut Vec<LinuxGpuDevice>, device: LinuxGpuDevice) -> (added: bool)
    ensures
        added == !listed_device(old(devices)@, device.device_path@),
        added ==> final(devices)@ == old(devices)@.push(device),
        !added ==> final(devices)@ == old(devices)@,
{
    let path = chars_of(device.device_path.as_str());
    let mut i: usize = 0;
    while i < devices.len()
        invariant
            0 <= i <= devices@.len(),
            path@ == device.device_path@,
            devices@ == old(devices)@,
            forall|k: int| 0 <= k < i ==> (#[trigger] devices@[k]).device_path@ != path@,
        decreases devices.len() - i,
    {
        if chars_eq(&chars_of(devices[i].device_path.as_str()), &path) {
            return false;
        }
        i += 1;
    }
    devices.push(device);
    true
}

} // verus!
