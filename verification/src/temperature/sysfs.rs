//! Paths of the Linux sysfs tree that hwmon chips are found in: the default
//! root, the sysfs root above it, the NVMe controller and PCI address a chip
//! sits under, NVMe namespaces, and the inspection records built from them.

use vstd::prelude::*;

use crate::text::{
    chars_eq, chars_of, concat, is_ascii_digit, join, join_chars, path_components,
    path_components_of, path_from_components, runs, runs_of, slice_chars, starts_with,
    starts_with_chars, string_of, CharClass,
};

verus! {

/// Whether a path names `/sys/class/hwmon` (compared by components).
pub open spec fn is_default_root_spec(p: Seq<char>) -> bool {
    p.len() > 0 && p[0] == '/' && path_components(p) == seq!["sys"@, "class"@, "hwmon"@]
}

pub fn is_default_hwmon_root(path: &str) -> (r: bool)
    ensures
        r == is_default_root_spec(path@),
{
    let p = chars_of(path);
    if p.len() == 0 || p[0] != '/' {
        return false;
    }
    let comps = path_components_of(&p);
    let r = comps.len() == 3 && chars_eq(&comps[0], &chars_of("sys")) && chars_eq(
        &comps[1],
        &chars_of("class"),
    ) && chars_eq(&comps[2], &chars_of("hwmon"));
    proof {
        if comps@.len() == 3 {
            assert(r ==> path_components(p@) =~= seq!["sys"@, "class"@, "hwmon"@]);
            if path_components(p@) == seq!["sys"@, "class"@, "hwmon"@] {
                assert(comps@[0]@ == "sys"@);
                assert(comps@[1]@ == "class"@);
                assert(comps@[2]@ == "hwmon"@);
            }
        }
    }
    r
}

/// The sysfs root above an hwmon root `<sys>/class/hwmon`.
pub open spec fn sys_root_spec(root: Seq<char>) -> Option<Seq<char>> {
    let c = path_components(root);
    if c.len() >= 2 && c[c.len() - 1] == "hwmon"@ && c[c.len() - 2] == "class"@ {
        Some(path_from_components(root.len() > 0 && root[0] == '/', c.take(c.len() - 2)))
    } else {
        None
    }
}

pub fn infer_sys_root_from_hwmon_root(root: &str) -> (r: Option<String>)
    ensures
        match r {
            Some(s) => sys_root_spec(root@) == Some(s@),
            None => sys_root_spec(root@) is None,
        },
{
    let p = chars_of(root);
    let comps = path_components_of(&p);
    let n = comps.len();
    if n < 2 || !chars_eq(&comps[n - 1], &chars_of("hwmon")) || !chars_eq(
        &comps[n - 2],
        &chars_of("class"),
    ) {
        return None;
    }
    let mut head: Vec<Vec<char>> = Vec::new();
    let mut i: usize = 0;
    while i < n - 2
        invariant
            0 <= i <= n - 2,
            n == comps@.len(),
            head@.len() == i,
            forall|k: int| 0 <= k < i ==> (#[trigger] head@[k])@ == comps@[k]@,
        decreases n - 2 - i,
    {
        head.push(slice_chars(&comps[i], 0, comps[i].len()));
        assert(comps@[i as int]@.subrange(0, comps@[i as int]@.len() as int) =~= comps@[i as int]@);
        i += 1;
    }
    let slash = vec!['/'];
    assert(slash@ =~= seq!['/']);
    let joined = join_chars(&head, &slash);
    proof {
        assert(head@.map_values(|v: Vec<char>| v@) =~= path_components(p@).take(n - 2));
    }
    let absolute = p.len() > 0 && p[0] == '/';
    let out = if absolute {
        concat(&slash, &joined)
    } else {
        joined
    };
    Some(string_of(&out))
}

/// `nvme` followed by at least one digit.
pub open spec fn nvme_controller_spec(v: Seq<char>) -> bool {
    starts_with(v, "nvme"@) && v.len() > 4 && crate::text::all_radix_digits(v.skip(4), 10)
}

pub fn is_nvme_controller_name(value: &[char]) -> (r: bool)
    ensures
        r == nvme_controller_spec(value@),
{
    if !starts_with_chars(value, &chars_of("nvme")) || value.len() <= 4 {
        return false;
    }
    let mut i: usize = 4;
    while i < value.len()
        invariant
            4 <= i <= value@.len(),
            forall|k: int| 4 <= k < i ==> crate::text::is_digit(#[trigger] value@[k]),
        decreases value.len() - i,
    {
        if !is_ascii_digit(value[i]) {
            assert(value@.skip(4)[i - 4] == value@[i as int]);
            return false;
        }
        i += 1;
    }
    assert forall|k: int| 0 <= k < value@.skip(4).len() implies crate::text::is_radix_digit(
        #[trigger] value@.skip(4)[k],
        10,
    ) by {
        assert(value@.skip(4)[k] == value@[k + 4]);
    }
    true
}

/// The first NVMe controller named right after an `nvme` component.
pub open spec fn controller_after(c: Seq<Seq<char>>, i: int) -> Option<Seq<char>>
    decreases c.len() - i,
{
    if i >= c.len() || i < 1 {
        if i < 1 && 1 < c.len() {
            controller_after(c, 1)
        } else {
            None
        }
    } else if c[i - 1] == "nvme"@ && nvme_controller_spec(c[i]) {
        Some(c[i])
    } else {
        controller_after(c, i + 1)
    }
}

pub open spec fn nvme_controller_in(path: Seq<char>) -> Option<Seq<char>> {
    controller_after(path_components(path), 1)
}

/// The NVMe controller (`nvmeN`) a chip's canonical sysfs path lies under.
pub fn extract_nvme_controller_from_path(path: &str) -> (r: Option<String>)
    ensures
        match r {
            Some(s) => nvme_controller_in(path@) == Some(s@),
            None => nvme_controller_in(path@) is None,
        },
{
    let comps = path_components_of(&chars_of(path));
    let ghost c = path_components(path@);
    let nvme = chars_of("nvme");
    let mut i: usize = 1;
    while i < comps.len()
        invariant
            1 <= i,
            i <= comps@.len() || comps@.len() == 0,
            comps@.len() == c.len(),
            c == path_components(path@),
            nvme@ == "nvme"@,
            forall|k: int| 0 <= k < comps@.len() ==> (#[trigger] comps@[k])@ == c[k],
            controller_after(c, 1) == controller_after(c, i as int),
        decreases comps.len() - i,
    {
        if chars_eq(&comps[i - 1], &nvme) && is_nvme_controller_name(&comps[i]) {
            return Some(string_of(&comps[i]));
        }
        i += 1;
    }
    None
}

/// A PCI address `DDDD:BB:SS.F` with hexadecimal domain, bus and slot.
pub open spec fn hex(c: char) -> bool {
    crate::text::is_radix_digit(c, 16)
}

pub open spec fn pci_bdf_spec(v: Seq<char>) -> bool {
    &&& v.len() == 12
    &&& v[4] == ':' && v[7] == ':' && v[10] == '.'
    &&& hex(v[0]) && hex(v[1]) && hex(v[2]) && hex(v[3])
    &&& hex(v[5]) && hex(v[6]) && hex(v[8]) && hex(v[9])
    &&& crate::text::is_digit(v[11])
}

fn is_hex(c: char) -> (r: bool)
    ensures
        r == hex(c),
{
    ('0' <= c && c <= '9') || ('a' <= c && c <= 'f') || ('A' <= c && c <= 'F')
}

pub fn is_pci_bdf(v: &[char]) -> (r: bool)
    ensures
        r == pci_bdf_spec(v@),
{
    v.len() == 12 && v[4] == ':' && v[7] == ':' && v[10] == '.' && is_hex(v[0]) && is_hex(v[1])
        && is_hex(v[2]) && is_hex(v[3]) && is_hex(v[5]) && is_hex(v[6]) && is_hex(v[8]) && is_hex(
        v[9],
    ) && is_ascii_digit(v[11])
}

/// The last component of a path that is a PCI address.
pub open spec fn last_bdf(c: Seq<Seq<char>>) -> Option<Seq<char>>
    decreases c.len(),
{
    if c.len() == 0 {
        None
    } else if pci_bdf_spec(c.last()) {
        Some(c.last())
    } else {
        last_bdf(c.drop_last())
    }
}

pub fn extract_pci_bdf_from_path(path: &str) -> (r: Option<String>)
    ensures
        match r {
            Some(s) => last_bdf(path_components(path@)) == Some(s@),
            None => last_bdf(path_components(path@)) is None,
        },
{
    let comps = path_components_of(&chars_of(path));
    let ghost c = path_components(path@);
    let mut i: usize = comps.len();
    assert(c.take(comps@.len() as int) =~= c);
    while i > 0
        invariant
            0 <= i <= comps@.len() == c.len(),
            c == path_components(path@),
            forall|k: int| 0 <= k < comps@.len() ==> (#[trigger] comps@[k])@ == c[k],
            last_bdf(c) == last_bdf(c.take(i as int)),
        decreases i,
    {
        assert(c.take(i as int).last() == c[i - 1]);
        assert(c.take(i as int).drop_last() =~= c.take(i - 1));
        if is_pci_bdf(&comps[i - 1]) {
            assert(comps@[i - 1]@ == c[i - 1]);
            assert(last_bdf(c.take(i as int)) == Some(c[i - 1]));
            return Some(string_of(&comps[i - 1]));
        }
        i -= 1;
    }
    None
}

/// The namespace of a block device of a controller: `<controller>n<N>`
/// gives `n<N>`.
pub open spec fn namespace_label_spec(controller: Seq<char>, name: Seq<char>) -> Option<Seq<char>> {
    if starts_with(name, controller) {
        let suffix = name.skip(controller.len() as int);
        if suffix.len() > 1 && suffix[0] == 'n' && crate::text::all_radix_digits(suffix.skip(1), 10) {
            Some(suffix)
        } else {
            None
        }
    } else {
        None
    }
}

pub fn nvme_namespace_label(controller: &str, name: &str) -> (r: Option<String>)
    ensures
        match r {
            Some(s) => namespace_label_spec(controller@, name@) == Some(s@),
            None => namespace_label_spec(controller@, name@) is None,
        },
{
    let c = chars_of(controller);
    let n = chars_of(name);
    if !starts_with_chars(&n, &c) {
        return None;
    }
    let suffix = slice_chars(&n, c.len(), n.len());
    assert(suffix@ =~= n@.skip(c@.len() as int));
    if suffix.len() <= 1 || suffix[0] != 'n' {
        return None;
    }
    let mut i: usize = 1;
    while i < suffix.len()
        invariant
            1 <= i <= suffix@.len(),
            suffix@.len() > 1,
            suffix@[0] == 'n',
            starts_with(n@, c@),
            n@ == name@,
            c@ == controller@,
            suffix@ == n@.skip(c@.len() as int),
            forall|k: int| 1 <= k < i ==> crate::text::is_digit(#[trigger] suffix@[k]),
        decreases suffix.len() - i,
    {
        if !is_ascii_digit(suffix[i]) {
            assert(suffix@.skip(1)[i - 1] == suffix@[i as int]);
            return None;
        }
        i += 1;
    }
    assert forall|k: int| 0 <= k < suffix@.skip(1).len() implies crate::text::is_radix_digit(
        #[trigger] suffix@.skip(1)[k],
        10,
    ) by {
        assert(suffix@.skip(1)[k] == suffix@[k + 1]);
    }
    Some(string_of(&suffix))
}

/// A sysfs string with its whitespace runs collapsed to single spaces.
pub open spec fn clean_spec(v: Seq<char>) -> Seq<char> {
    join(runs(v, CharClass::NonWhitespace), seq![' '])
}

pub fn clean_sysfs_string(value: &str) -> (r: String)
    ensures
        r@ == clean_spec(value@),
{
    let parts = runs_of(&chars_of(value), CharClass::NonWhitespace);
    let sep = vec![' '];
    proof {
        assert(parts@.map_values(|p: Vec<char>| p@) =~= runs(value@, CharClass::NonWhitespace));
        assert(sep@ =~= seq![' ']);
    }
    string_of(&join_chars(&parts, &sep))
}

/// The stable id of an NVMe drive: its PCI address when known, else its
/// controller.
pub open spec fn storage_id_spec(pci_bdf: Option<Seq<char>>, controller: Seq<char>) -> Seq<char> {
    match pci_bdf {
        Some(b) => "pci-"@ + b,
        None => "controller-"@ + controller,
    }
}

pub fn storage_id(pci_bdf: Option<&str>, controller: &str) -> (r: String)
    ensures
        r@ == storage_id_spec(
            match pci_bdf {
                Some(b) => Some(b@),
                None => None,
            },
            controller@,
        ),
{
    match pci_bdf {
        Some(b) => string_of(&concat(&chars_of("pci-"), &chars_of(b))),
        None => string_of(&concat(&chars_of("controller-"), &chars_of(controller))),
    }
}

/// A namespace's capacity from its size in 512-byte sectors, when the
/// product fits.
pub fn namespace_size_bytes(sectors_512: Option<u64>) -> (r: Option<u64>)
    ensures
        match sectors_512 {
            Some(s) => if s * 512 <= u64::MAX {
                r == Some((s * 512) as u64)
            } else {
                r is None
            },
            None => r is None,
        },
{
    match sectors_512 {
        Some(s) => s.checked_mul(512),
        None => None,
    }
}

/// The device file of a block device.
pub fn dev_path(name: &str) -> (r: String)
    ensures
        r@ == "/dev/"@ + name@,
{
    string_of(&concat(&chars_of("/dev/"), &chars_of(name)))
}

#[derive(Debug, Clone, PartialEq, Eq)]
pub struct LinuxHwmonAttributeInspection {
    pub name: String,
    pub path: String,
    pub value: Option<String>,
    pub error: Option<String>,
}

#[derive(Debug, Clone, PartialEq, Eq)]
pub struct LinuxHwmonNvmeNamespaceInspection {
    pub name: String,
    pub namespace: String,
    pub sysfs_path: String,
    pub dev_path: String,
    pub size_bytes: Option<u64>,
    pub sectors_512: Option<u64>,
    pub logical_block_size_bytes: Option<u64>,
}

#[derive(Debug, Clone, PartialEq, Eq)]
pub struct LinuxHwmonNvmeInspection {
    pub hwmon: String,
    pub hwmon_path: String,
    pub canonical_hwmon_path: String,
    pub controller: String,
    pub controller_sysfs_path: String,
    pub storage_id: String,
    pub pci_bdf: Option<String>,
    pub pci_device_path: Option<String>,
    pub model: Option<String>,
    pub serial: Option<String>,
    pub firmware_rev: Option<String>,
    pub state: Option<String>,
    pub namespaces: Vec<LinuxHwmonNvmeNamespaceInspection>,
    pub warnings: Vec<String>,
}

impl LinuxHwmonNvmeNamespaceInspection {
    /// The record of a namespace block device of `controller` at
    /// `sysfs_path`, from its size files.
    pub fn new(
        controller: &str,
        name: &str,
        sysfs_path: String,
        sectors_512: Option<u64>,
        logical_block_size_bytes: Option<u64>,
    ) -> (r: Option<Self>)
        ensures
            match r {
                Some(ns) => namespace_label_spec(controller@, name@) == Some(ns.namespace@)
                    && ns.name@ == name@ && ns.sysfs_path == sysfs_path && ns.dev_path@ == "/dev/"@
                    + name@ && ns.sectors_512 == sectors_512 && ns.logical_block_size_bytes
                    == logical_block_size_bytes && ns.size_bytes == (match sectors_512 {
                    Some(s) => if s * 512 <= u64::MAX {
                        Some((s * 512) as u64)
                    } else {
                        None
                    },
                    None => None,
                }),
                None => namespace_label_spec(controller@, name@) is None,
            },
    {
        let namespace = match nvme_namespace_label(controller, name) {
            Some(n) => n,
            None => {
                return None;
            },
        };
        Some(
            LinuxHwmonNvmeNamespaceInspection {
                name: string_of(&chars_of(name)),
                namespace,
                sysfs_path,
                dev_path: dev_path(name),
                size_bytes: namespace_size_bytes(sectors_512),
                sectors_512,
                logical_block_size_bytes,
            },
        )
    }
}

} // verus!
