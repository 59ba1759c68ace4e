//! AMD GPUs through the amdgpu driver's sysfs files: the binary
//! `gpu_metrics` table (format 2 and 3), the active clock and power
//! profile lines, and the memory counters.
//!
//! Readings are kept in the units the driver reports them in (hundredths
//! of a degree, milliwatts, percent, megahertz); they become floating-point
//! values only where they are published.

use vstd::prelude::*;

use crate::bytes::{dword_at, read_dword, read_word, word_at};
use crate::text::{
    chars_eq, chars_of, concat, contains, decimal, decimal_chars, index_of_char, lines, lines_of,
    lower_seq, runs, runs_of, starts_with, starts_with_chars, string_of, to_lower_chars, trim,
    trim_chars, CharClass,
};

verus! {

pub const COLLECTOR_NAME: &'static str = "linux_amdgpu";
pub const SOURCE: &'static str = "linux_amdgpu";
pub const SOURCE_DRIVER: &'static str = "amdgpu";

// ---------------------------------------------------------------------------
// Little-endian fields
// ---------------------------------------------------------------------------

pub open spec fn u16_at(b: Seq<u8>, off: int) -> Option<u16> {
    if 0 <= off && off + 2 <= b.len() {
        Some((b[off] as int + 256 * b[off + 1] as int) as u16)
    } else {
        None
    }
}

pub open spec fn u32_at(b: Seq<u8>, off: int) -> Option<u32> {
    if 0 <= off && off + 4 <= b.len() {
        Some(word_at(b, off, true))
    } else {
        None
    }
}

pub open spec fn u64_at(b: Seq<u8>, off: int) -> Option<u64> {
    if 0 <= off && off + 8 <= b.len() {
        Some(dword_at(b, off, true))
    } else {
        None
    }
}

fn read_u16_le(b: &[u8], off: usize) -> (r: Option<u16>)
    requires
        off < 0x10000,
    ensures
        r == u16_at(b@, off as int),
{
    if off + 2 > b.len() {
        return None;
    }
    Some(b[off] as u16 + 256 * (b[off + 1] as u16))
}

fn read_u32_le(b: &[u8], off: usize) -> (r: Option<u32>)
    requires
        off < 0x10000,
    ensures
        r == u32_at(b@, off as int),
{
    if off + 4 > b.len() {
        return None;
    }
    Some(read_word(b, off, true))
}

fn read_u64_le(b: &[u8], off: usize) -> (r: Option<u64>)
    requires
        off < 0x10000,
    ensures
        r == u64_at(b@, off as int),
{
    if off + 8 > b.len() {
        return None;
    }
    Some(read_dword(b, off, true))
}

/// A 16-bit field is unset when it holds all ones.
pub open spec fn valid16(o: Option<u16>) -> Option<u16> {
    match o {
        Some(v) => if v != 0xffff {
            Some(v)
        } else {
            None
        },
        None => None,
    }
}

/// A temperature in hundredths of a degree, kept up to 250 degrees.
pub open spec fn centi_at(b: Seq<u8>, off: int) -> Option<u16> {
    match valid16(u16_at(b, off)) {
        Some(v) => if v <= 25000 {
            Some(v)
        } else {
            None
        },
        None => None,
    }
}

/// A busy percentage, kept up to 100.
pub open spec fn percent_at(b: Seq<u8>, off: int) -> Option<u16> {
    match valid16(u16_at(b, off)) {
        Some(v) => if v <= 100 {
            Some(v)
        } else {
            None
        },
        None => None,
    }
}

/// A 32-bit milliwatt field, unset when all ones.
pub open spec fn mw32_at(b: Seq<u8>, off: int) -> Option<u32> {
    match u32_at(b, off) {
        Some(v) => if v != 0xffff_ffff {
            Some(v)
        } else {
            None
        },
        None => None,
    }
}

/// The highest of `count` temperatures from `off` on, among those set.
pub open spec fn max_centi(b: Seq<u8>, off: int, count: nat) -> Option<u16>
    decreases count,
{
    if count == 0 {
        None
    } else {
        let rest = max_centi(b, off, (count - 1) as nat);
        match centi_at(b, off + 2 * (count - 1)) {
            Some(v) => match rest {
                Some(m) => if v > m {
                    Some(v)
                } else {
                    Some(m)
                },
                None => Some(v),
            },
            None => rest,
        }
    }
}


/// The hottest of the valid readings among `count` temperature fields from
/// `off` on: it is at least every valid reading there and is one of them,
/// and there is none exactly when no field holds a valid reading.
pub proof fn lemma_max_centi_is_hottest(b: Seq<u8>, off: int, count: nat)
    ensures
        forall|k: int|
            0 <= k < count && (#[trigger] centi_at(b, off + 2 * k)) is Some ==> (max_centi(b, off, count)
                is Some && centi_at(b, off + 2 * k)->0 <= max_centi(b, off, count)->0),
        max_centi(b, off, count) matches Some(m) ==> exists|k: int|
            0 <= k < count && #[trigger] centi_at(b, off + 2 * k) == Some(m),
        (max_centi(b, off, count) is None) == (forall|k: int|
            0 <= k < count ==> (#[trigger] centi_at(b, off + 2 * k)) is None),
    decreases count,
{
    if count > 0 {
        let c = (count - 1) as nat;
        lemma_max_centi_is_hottest(b, off, c);
        let last = off + 2 * (count - 1);
        assert forall|k: int|
            0 <= k < count && (#[trigger] centi_at(b, off + 2 * k)) is Some implies (max_centi(b, off, count)
                is Some && centi_at(b, off + 2 * k)->0 <= max_centi(b, off, count)->0) by {
            if k < c {
                assert(centi_at(b, off + 2 * k) is Some);
            } else {
                assert(off + 2 * k == last);
            }
        }
        if max_centi(b, off, count) is Some {
            let m = max_centi(b, off, count)->0;
            if centi_at(b, last) == Some(m) {
                assert(centi_at(b, off + 2 * c) == Some(m));
            } else {
                assert(max_centi(b, off, c) == Some(m));
                let k = choose|k: int| 0 <= k < c && #[trigger] centi_at(b, off + 2 * k) == Some(m);
                assert(centi_at(b, off + 2 * k) == Some(m));
            }
        }
        if max_centi(b, off, count) is None {
            assert forall|k: int| 0 <= k < count implies (#[trigger] centi_at(b, off + 2 * k)) is None by {
                if k < c {
                } else {
                    assert(off + 2 * k == last);
                }
            }
        }
    }
}
/// The milliwatt fields that are set among `count` from `off` on, in order.
pub open spec fn mw_readings(b: Seq<u8>, off: int, count: nat) -> Seq<u32>
    decreases count,
{
    if count == 0 {
        seq![]
    } else {
        let rest = mw_readings(b, off, (count - 1) as nat);
        match valid16(u16_at(b, off + 2 * (count - 1))) {
            Some(v) => rest.push(v as u32),
            None => rest,
        }
    }
}

fn read_valid16(b: &[u8], off: usize) -> (r: Option<u16>)
    requires
        off < 0x10000,
    ensures
        r == valid16(u16_at(b@, off as int)),
{
    match read_u16_le(b, off) {
        Some(v) => if v != 0xffff {
            Some(v)
        } else {
            None
        },
        None => None,
    }
}

fn read_centi(b: &[u8], off: usize) -> (r: Option<u16>)
    requires
        off < 0x10000,
    ensures
        r == centi_at(b@, off as int),
{
    match read_valid16(b, off) {
        Some(v) => if v <= 25000 {
            Some(v)
        } else {
            None
        },
        None => None,
    }
}

fn read_percent(b: &[u8], off: usize) -> (r: Option<u16>)
    requires
        off < 0x10000,
    ensures
        r == percent_at(b@, off as int),
{
    match read_valid16(b, off) {
        Some(v) => if v <= 100 {
            Some(v)
        } else {
            None
        },
        None => None,
    }
}

fn read_mw32(b: &[u8], off: usize) -> (r: Option<u32>)
    requires
        off < 0x10000,
    ensures
        r == mw32_at(b@, off as int),
{
    match read_u32_le(b, off) {
        Some(v) => if v != 0xffff_ffff {
            Some(v)
        } else {
            None
        },
        None => None,
    }
}

fn read_max_centi(b: &[u8], off: usize, count: usize) -> (r: Option<u16>)
    requires
        off + 2 * count < 0x10000,
    ensures
        r == max_centi(b@, off as int, count as nat),
{
    let mut best: Option<u16> = None;
    let mut k: usize = 0;
    while k < count
        invariant
            0 <= k <= count,
            off + 2 * count < 0x10000,
            best == max_centi(b@, off as int, k as nat),
        decreases count - k,
    {
        match read_centi(b, off + 2 * k) {
            Some(v) => {
                best = match best {
                    Some(m) => if v > m {
                        Some(v)
                    } else {
                        Some(m)
                    },
                    None => Some(v),
                };
            },
            None => {},
        }
        k += 1;
    }
    best
}

fn read_mw_readings(b: &[u8], off: usize, count: usize) -> (r: Vec<u32>)
    requires
        off + 2 * count < 0x10000,
    ensures
        r@ == mw_readings(b@, off as int, count as nat),
{
    let mut out: Vec<u32> = Vec::new();
    let mut k: usize = 0;
    while k < count
        invariant
            0 <= k <= count,
            off + 2 * count < 0x10000,
            out@ == mw_readings(b@, off as int, k as nat),
        decreases count - k,
    {
        match read_valid16(b, off + 2 * k) {
            Some(v) => out.push(v as u32),
            None => {},
        }
        k += 1;
    }
    out
}

// ---------------------------------------------------------------------------
// The gpu_metrics table
// ---------------------------------------------------------------------------

/// What the `gpu_metrics` table reports, in the driver's units. The CPU
/// power is given as the milliwatt readings whose sum it is.
#[derive(Debug, Clone, PartialEq, Eq)]
pub struct AmdgpuGpuMetrics {
    pub format_revision: u8,
    pub content_revision: u8,
    pub gpu_temperature_centi: Option<u16>,
    pub soc_temperature_centi: Option<u16>,
    pub cpu_temperature_centi: Option<u16>,
    pub gpu_power_mw: Option<u32>,
    pub cpu_power_mw_parts: Option<Vec<u32>>,
    pub gpu_busy_percent: Option<u16>,
    pub gpu_clock_mhz: Option<u16>,
    pub memory_clock_mhz: Option<u16>,
    pub power_throttled: Option<bool>,
    pub current_throttled: Option<bool>,
    pub thermal_throttled: Option<bool>,
    pub other_throttled: Option<bool>,
}

pub open spec fn or_else<T>(a: Option<T>, b: Option<T>) -> Option<T> {
    match a {
        Some(v) => Some(v),
        None => b,
    }
}

pub open spec fn parts_view(p: Option<Vec<u32>>) -> Option<Seq<u32>> {
    match p {
        Some(v) => Some(v@),
        None => None,
    }
}

/// A single reading, or else the readings of a group when any is set.
pub open spec fn power_parts(single: Option<u16>, group: Seq<u32>) -> Option<Seq<u32>> {
    match single {
        Some(v) => Some(seq![v as u32]),
        None => if group.len() > 0 {
            Some(group)
        } else {
            None
        },
    }
}

pub open spec fn throttle_flags(t: Option<u64>) -> (Option<bool>, Option<bool>, Option<bool>, Option<bool>) {
    match t {
        Some(v) => (
            Some(v & 0xff != 0),
            Some(v & 0xff_0000 != 0),
            Some(v & 0xffff_0000_0000 != 0),
            Some(v & 0xff00_0000_0000_0000 != 0),
        ),
        None => (None, None, None, None),
    }
}

/// Whether a parsed table says what a format 2 table at `b` says (for its
/// content revision: 0, or any later one).
pub open spec fn v2_spec(b: Seq<u8>, cr: u8, m: AmdgpuGpuMetrics) -> bool {
    &&& m.format_revision == 2 && m.content_revision == cr
    &&& if cr == 0 {
        &&& m.gpu_temperature_centi == centi_at(b, 16)
        &&& m.soc_temperature_centi == centi_at(b, 18)
        &&& m.cpu_temperature_centi == or_else(max_centi(b, 20, 8), max_centi(b, 52, 8))
        &&& m.gpu_busy_percent == percent_at(b, 40)
        &&& parts_view(m.cpu_power_mw_parts) == power_parts(valid16(u16_at(b, 46)), mw_readings(b, 52, 8))
        &&& m.gpu_power_mw == (match valid16(u16_at(b, 50)) {
            Some(v) => Some(v as u32),
            None => None,
        })
        &&& m.gpu_clock_mhz == or_else(valid16(u16_at(b, 84)), valid16(u16_at(b, 72)))
        &&& m.memory_clock_mhz == or_else(valid16(u16_at(b, 88)), valid16(u16_at(b, 76)))
        &&& (m.power_throttled, m.current_throttled, m.thermal_throttled, m.other_throttled)
            == throttle_flags(None)
    } else {
        &&& m.gpu_temperature_centi == or_else(centi_at(b, 4), centi_at(b, 128))
        &&& m.soc_temperature_centi == or_else(centi_at(b, 6), centi_at(b, 130))
        &&& m.cpu_temperature_centi == or_else(max_centi(b, 8, 8), max_centi(b, 132, 8))
        &&& m.gpu_busy_percent == percent_at(b, 28)
        &&& parts_view(m.cpu_power_mw_parts) == power_parts(valid16(u16_at(b, 42)), mw_readings(b, 48, 8))
        &&& m.gpu_power_mw == (match valid16(u16_at(b, 46)) {
            Some(v) => Some(v as u32),
            None => None,
        })
        &&& m.gpu_clock_mhz == or_else(valid16(u16_at(b, 80)), valid16(u16_at(b, 68)))
        &&& m.memory_clock_mhz == or_else(valid16(u16_at(b, 84)), valid16(u16_at(b, 72)))
        &&& (m.power_throttled, m.current_throttled, m.thermal_throttled, m.other_throttled)
            == throttle_flags(
            or_else(
                u64_at(b, 120),
                match u32_at(b, 112) {
                    Some(v) => Some(v as u64),
                    None => None,
                },
            ),
        )
    }
}

/// The CPU power of a format 3 table: the APU's power less the GPU's when
/// both are set and it is not negative, else the separate CPU field.
pub open spec fn v3_cpu_power(b: Seq<u8>) -> Option<u32> {
    match (u32_at(b, 120), u32_at(b, 124)) {
        (Some(apu), Some(gpu)) => if apu >= gpu && apu != 0xffff_ffff && gpu != 0xffff_ffff {
            Some((apu - gpu) as u32)
        } else {
            mw32_at(b, 132)
        },
        _ => mw32_at(b, 132),
    }
}

pub open spec fn v3_spec(b: Seq<u8>, cr: u8, m: AmdgpuGpuMetrics) -> bool {
    &&& m.format_revision == 3 && m.content_revision == cr
    &&& m.gpu_temperature_centi == centi_at(b, 4)
    &&& m.soc_temperature_centi == centi_at(b, 6)
    &&& m.cpu_temperature_centi == max_centi(b, 8, 16)
    &&& m.gpu_busy_percent == percent_at(b, 42)
    &&& m.gpu_power_mw == mw32_at(b, 124)
    &&& parts_view(m.cpu_power_mw_parts) == (match v3_cpu_power(b) {
        Some(v) => Some(seq![v]),
        None => None,
    })
    &&& m.gpu_clock_mhz == valid16(u16_at(b, 174))
    &&& m.memory_clock_mhz == valid16(u16_at(b, 186))
    &&& (m.power_throttled, m.current_throttled, m.thermal_throttled, m.other_throttled)
        == throttle_flags(None)
}

fn power_parts_exec(single: Option<u16>, group: Vec<u32>) -> (r: Option<Vec<u32>>)
    ensures
        parts_view(r) == power_parts(single, group@),
{
    match single {
        Some(v) => {
            let mut p: Vec<u32> = Vec::new();
            p.push(v as u32);
            assert(p@ =~= seq![v as u32]);
            Some(p)
        },
        None => if group.len() > 0 {
            Some(group)
        } else {
            None
        },
    }
}

fn widen(o: Option<u16>) -> (r: Option<u32>)
    ensures
        r == (match o {
            Some(v) => Some(v as u32),
            None => None,
        }),
{
    match o {
        Some(v) => Some(v as u32),
        None => None,
    }
}

fn first_of<T>(a: Option<T>, b: Option<T>) -> (r: Option<T>)
    ensures
        r == or_else(a, b),
{
    match a {
        Some(v) => Some(v),
        None => b,
    }
}

pub fn parse_gpu_metrics_v2(bytes: &[u8], content_revision: u8) -> (r: AmdgpuGpuMetrics)
    ensures
        v2_spec(bytes@, content_revision, r),
{
    if content_revision == 0 {
        let max_a = read_max_centi(bytes, 20, 8);
        let max_b = read_max_centi(bytes, 52, 8);
        let group = read_mw_readings(bytes, 52, 8);
        return AmdgpuGpuMetrics {
            format_revision: 2,
            content_revision,
            gpu_temperature_centi: read_centi(bytes, 16),
            soc_temperature_centi: read_centi(bytes, 18),
            cpu_temperature_centi: first_of(max_a, max_b),
            gpu_power_mw: widen(read_valid16(bytes, 50)),
            cpu_power_mw_parts: power_parts_exec(read_valid16(bytes, 46), group),
            gpu_busy_percent: read_percent(bytes, 40),
            gpu_clock_mhz: first_of(read_valid16(bytes, 84), read_valid16(bytes, 72)),
            memory_clock_mhz: first_of(read_valid16(bytes, 88), read_valid16(bytes, 76)),
            power_throttled: None,
            current_throttled: None,
            thermal_throttled: None,
            other_throttled: None,
        };
    }
    let group = read_mw_readings(bytes, 48, 8);
    let throttle = match read_u64_le(bytes, 120) {
        Some(t) => Some(t),
        None => match read_u32_le(bytes, 112) {
            Some(t) => Some(t as u64),
            None => None,
        },
    };
    let (power_throttled, current_throttled, thermal_throttled, other_throttled) = match throttle {
        Some(t) => (
            Some(t & 0xff != 0),
            Some(t & 0xff_0000 != 0),
            Some(t & 0xffff_0000_0000 != 0),
            Some(t & 0xff00_0000_0000_0000 != 0),
        ),
        None => (None, None, None, None),
    };
    AmdgpuGpuMetrics {
        format_revision: 2,
        content_revision,
        gpu_temperature_centi: first_of(read_centi(bytes, 4), read_centi(bytes, 128)),
        soc_temperature_centi: first_of(read_centi(bytes, 6), read_centi(bytes, 130)),
        cpu_temperature_centi: first_of(read_max_centi(bytes, 8, 8), read_max_centi(bytes, 132, 8)),
        gpu_power_mw: widen(read_valid16(bytes, 46)),
        cpu_power_mw_parts: power_parts_exec(read_valid16(bytes, 42), group),
        gpu_busy_percent: read_percent(bytes, 28),
        gpu_clock_mhz: first_of(read_valid16(bytes, 80), read_valid16(bytes, 68)),
        memory_clock_mhz: first_of(read_valid16(bytes, 84), read_valid16(bytes, 72)),
        power_throttled,
        current_throttled,
        thermal_throttled,
        other_throttled,
    }
}

pub fn parse_gpu_metrics_v3(bytes: &[u8], content_revision: u8) -> (r: AmdgpuGpuMetrics)
    ensures
        v3_spec(bytes@, content_revision, r),
{
    let cpu = match (read_u32_le(bytes, 120), read_u32_le(bytes, 124)) {
        (Some(apu), Some(gpu)) => if apu >= gpu && apu != 0xffff_ffff && gpu != 0xffff_ffff {
            Some(apu - gpu)
        } else {
            read_mw32(bytes, 132)
        },
        _ => read_mw32(bytes, 132),
    };
    let parts = match cpu {
        Some(v) => {
            let mut p: Vec<u32> = Vec::new();
            p.push(v);
            assert(p@ =~= seq![v]);
            Some(p)
        },
        None => None,
    };
    AmdgpuGpuMetrics {
        format_revision: 3,
        content_revision,
        gpu_temperature_centi: read_centi(bytes, 4),
        soc_temperature_centi: read_centi(bytes, 6),
        cpu_temperature_centi: read_max_centi(bytes, 8, 16),
        gpu_power_mw: read_mw32(bytes, 124),
        cpu_power_mw_parts: parts,
        gpu_busy_percent: read_percent(bytes, 42),
        gpu_clock_mhz: read_valid16(bytes, 174),
        memory_clock_mhz: read_valid16(bytes, 186),
        power_throttled: None,
        current_throttled: None,
        thermal_throttled: None,
        other_throttled: None,
    }
}

/// A `gpu_metrics` table: its header gives its size (which the bytes must
/// hold) and its format; formats 2 and 3 are read, any other is not.
pub open spec fn gpu_metrics_spec(b: Seq<u8>, r: Option<AmdgpuGpuMetrics>) -> bool {
    if b.len() < 4 || u16_at(b, 0)->0 > b.len() {
        r is None
    } else if b[2] == 2 {
        r matches Some(m) && v2_spec(b, b[3], m)
    } else if b[2] == 3 {
        r matches Some(m) && v3_spec(b, b[3], m)
    } else {
        r is None
    }
}

pub fn parse_gpu_metrics(bytes: &[u8]) -> (r: Option<AmdgpuGpuMetrics>)
    ensures
        gpu_metrics_spec(bytes@, r),
{
    if bytes.len() < 4 {
        return None;
    }
    let size = match read_u16_le(bytes, 0) {
        Some(s) => s as usize,
        None => 0,
    };
    if size > bytes.len() {
        return None;
    }
    let format_revision = bytes[2];
    let content_revision = bytes[3];
    if format_revision == 2 {
        Some(parse_gpu_metrics_v2(bytes, content_revision))
    } else if format_revision == 3 {
        Some(parse_gpu_metrics_v3(bytes, content_revision))
    } else {
        None
    }
}

// ---------------------------------------------------------------------------
// Text files
// ---------------------------------------------------------------------------

/// Strips every leading `card` (the GPU index of a card entry).
pub open spec fn strip_cards(s: Seq<char>) -> Seq<char>
    decreases s.len(),
{
    if s.len() >= 4 && starts_with(s, "card"@) {
        strip_cards(s.skip(4))
    } else {
        s
    }
}

pub fn gpu_index_of_card(card: &str) -> (r: String)
    ensures
        r@ == strip_cards(card@),
{
    let c = chars_of(card);
    let prefix = chars_of("card");
    let mut i: usize = 0;
    assert(c@.skip(0) =~= c@);
    while c.len() >= 4 && i <= c.len() - 4 && starts_with_chars(&crate::text::slice_chars(&c, i, c.len()), &prefix)
        invariant
            0 <= i <= c@.len(),
            c@ == card@,
            prefix@ == "card"@,
            strip_cards(card@) == strip_cards(c@.skip(i as int)),
        decreases c.len() - i,
    {
        assert(c@.subrange(i as int, c@.len() as int) =~= c@.skip(i as int));
        assert(c@.skip(i as int).skip(4) =~= c@.skip(i + 4));
        i += 4;
    }
    proof {
        if i + 4 <= c@.len() {
            assert(c@.subrange(i as int, c@.len() as int) =~= c@.skip(i as int));
        }
    }
    string_of(&crate::text::slice_chars(&c, i, c.len()))
}

/// The active power profile: the last word of the first line marked with
/// `*` that has one, lower-cased.
pub open spec fn profile_of_line(line: Seq<char>) -> Option<Seq<char>> {
    if contains(line, seq!['*']) {
        let words = runs(no_stars(line), CharClass::NonWhitespace);
        if words.len() > 0 {
            Some(lower_seq(words.last()))
        } else {
            None
        }
    } else {
        None
    }
}

pub open spec fn first_profile(ls: Seq<Seq<char>>) -> Option<Seq<char>>
    decreases ls.len(),
{
    if ls.len() == 0 {
        None
    } else {
        match profile_of_line(ls[0]) {
            Some(p) => Some(p),
            None => first_profile(ls.drop_first()),
        }
    }
}

/// A text without its `*` marks.
pub open spec fn no_stars(s: Seq<char>) -> Seq<char>
    decreases s.len(),
{
    if s.len() == 0 {
        seq![]
    } else if s.last() == '*' {
        no_stars(s.drop_last())
    } else {
        no_stars(s.drop_last()).push(s.last())
    }
}

fn without_stars(line: &[char]) -> (r: Vec<char>)
    ensures
        r@ == no_stars(line@),
{
    let mut out: Vec<char> = Vec::new();
    let mut i: usize = 0;
    while i < line.len()
        invariant
            0 <= i <= line@.len(),
            out@ == no_stars(line@.take(i as int)),
        decreases line.len() - i,
    {
        assert(line@.take(i + 1).drop_last() =~= line@.take(i as int));
        if line[i] != '*' {
            out.push(line[i]);
        }
        i += 1;
    }
    assert(line@.take(line@.len() as int) =~= line@);
    out
}

pub fn active_power_profile_mode(text: &str) -> (r: Option<String>)
    ensures
        match r {
            Some(s) => first_profile(lines(text@)) == Some(s@),
            None => first_profile(lines(text@)) is None,
        },
{
    let ls = lines_of(&chars_of(text));
    let ghost spec_ls = lines(text@);
    let star = vec!['*'];
    assert(star@ =~= seq!['*']);
    let mut i: usize = 0;
    assert(spec_ls.skip(0) =~= spec_ls);
    while i < ls.len()
        invariant
            0 <= i <= ls@.len() == spec_ls.len(),
            spec_ls == lines(text@),
            star@ == seq!['*'],
            forall|k: int| 0 <= k < ls@.len() ==> (#[trigger] ls@[k])@ == spec_ls[k],
            first_profile(spec_ls) == first_profile(spec_ls.skip(i as int)),
        decreases ls.len() - i,
    {
        assert(spec_ls.skip(i as int)[0] == ls@[i as int]@);
        assert(spec_ls.skip(i as int).drop_first() =~= spec_ls.skip(i + 1));
        if crate::text::contains_chars(&ls[i], &star) {
            let words = runs_of(&without_stars(&ls[i]), CharClass::NonWhitespace);
            if words.len() > 0 {
                return Some(string_of(&to_lower_chars(&words[words.len() - 1])));
            }
        }
        i += 1;
    }
    None
}

/// `str::trim_end_matches` of a unit, which strips it as often as it
/// repeats.
pub open spec fn strip_repeated(s: Seq<char>, unit: Seq<char>) -> Seq<char>
    decreases s.len(),
{
    if unit.len() > 0 && s.len() >= unit.len() && crate::text::ends_with(s, unit) {
        strip_repeated(s.take(s.len() - unit.len()), unit)
    } else {
        s
    }
}

fn strip_repeated_chars(s: &[char], unit: &[char]) -> (r: Vec<char>)
    requires
        unit@.len() > 0,
    ensures
        r@ == strip_repeated(s@, unit@),
{
    let mut end = s.len();
    assert(s@.take(end as int) =~= s@);
    while end >= unit.len() && crate::text::ends_with_chars(&crate::text::slice_chars(s, 0, end), unit)
        invariant
            0 <= end <= s@.len(),
            unit@.len() > 0,
            strip_repeated(s@, unit@) == strip_repeated(s@.take(end as int), unit@),
        decreases end,
    {
        assert(s@.subrange(0, end as int) =~= s@.take(end as int));
        assert(s@.take(end as int).take(end - unit@.len()) =~= s@.take(end - unit@.len()));
        end -= unit.len();
    }
    proof {
        if end >= unit@.len() {
            assert(s@.subrange(0, end as int) =~= s@.take(end as int));
        }
    }
    let r = crate::text::slice_chars(s, 0, end);
    assert(r@ =~= s@.take(end as int));
    r
}

/// The second `:`-separated piece of a line (`split(':').nth(1)`).
pub open spec fn second_piece(line: Seq<char>) -> Option<Seq<char>> {
    match crate::text::split_once(line, ':') {
        Some((_, after)) => match crate::text::split_once(after, ':') {
            Some((piece, _)) => Some(piece),
            None => Some(after),
        },
        None => None,
    }
}

/// The clock text of a line marked with `*`: its second piece without the
/// marks, trimmed and without trailing MHz units.
pub open spec fn clock_text(line: Seq<char>) -> Option<Seq<char>> {
    if contains(line, seq!['*']) {
        match second_piece(line) {
            Some(p) => Some(
                trim(
                    strip_repeated(
                        strip_repeated(
                            strip_repeated(trim(no_stars(p)), "MHz"@),
                            "Mhz"@,
                        ),
                        "mhz"@,
                    ),
                ),
            ),
            None => None,
        }
    } else {
        None
    }
}

pub open spec fn clock_candidates(ls: Seq<Seq<char>>) -> Seq<Seq<char>>
    decreases ls.len(),
{
    if ls.len() == 0 {
        seq![]
    } else {
        let rest = clock_candidates(ls.drop_last());
        match clock_text(ls.last()) {
            Some(t) => rest.push(t),
            None => rest,
        }
    }
}

/// The clock texts of a `pp_dpm_*` table's marked lines, in order; the
/// first that reads as a number of megahertz is the active clock.
pub fn dpm_clock_candidates(text: &str) -> (r: Vec<String>)
    ensures
        r@.len() == clock_candidates(lines(text@)).len(),
        forall|k: int| 0 <= k < r@.len() ==> (#[trigger] r@[k])@ == clock_candidates(lines(text@))[k],
{
    let ls = lines_of(&chars_of(text));
    let ghost spec_ls = lines(text@);
    let star = vec!['*'];
    assert(star@ =~= seq!['*']);
    let mut out: Vec<String> = Vec::new();
    let mut i: usize = 0;
    while i < ls.len()
        invariant
            0 <= i <= ls@.len() == spec_ls.len(),
            spec_ls == lines(text@),
            star@ == seq!['*'],
            forall|k: int| 0 <= k < ls@.len() ==> (#[trigger] ls@[k])@ == spec_ls[k],
            out@.len() == clock_candidates(spec_ls.take(i as int)).len(),
            forall|k: int| 0 <= k < out@.len() ==> (#[trigger] out@[k])@ == clock_candidates(spec_ls.take(i as int))[k],
        decreases ls.len() - i,
    {
        assert(spec_ls.take(i + 1).drop_last() =~= spec_ls.take(i as int));
        assert(ls@[i as int]@ == spec_ls[i as int]);
        if crate::text::contains_chars(&ls[i], &star) {
            let piece = match crate::text::split_once_chars(&ls[i], ':') {
                Some((_, after)) => match crate::text::split_once_chars(&after, ':') {
                    Some((p, _)) => Some(p),
                    None => Some(after),
                },
                None => None,
            };
            match piece {
                Some(p) => {
                    let a = trim_chars(&without_stars(&p));
                    let u1 = vec!['M', 'H', 'z'];
                    let u2 = vec!['M', 'h', 'z'];
                    let u3 = vec!['m', 'h', 'z'];
                    proof {
                        reveal_strlit("MHz");
                        reveal_strlit("Mhz");
                        reveal_strlit("mhz");
                        assert(u1@ =~= "MHz"@);
                        assert(u2@ =~= "Mhz"@);
                        assert(u3@ =~= "mhz"@);
                    }
                    let b = strip_repeated_chars(&a, &u1);
                    let c = strip_repeated_chars(&b, &u2);
                    let d = strip_repeated_chars(&c, &u3);
                    out.push(string_of(&trim_chars(&d)));
                },
                None => {},
            }
        }
        i += 1;
    }
    assert(spec_ls.take(ls@.len() as int) =~= spec_ls);
    out
}

/// Whether the reported memory leaves room for a free amount, and which
/// states of a memory pool are published: its total, its used amount, and
/// the free amount when the used amount fits in the total.
pub open spec fn memory_states_spec(total: Option<u64>, used: Option<u64>) -> Seq<(Seq<char>, u64)> {
    let a: Seq<(Seq<char>, u64)> = match total {
        Some(t) => seq![("total"@, t)],
        None => seq![],
    };
    let b = match used {
        Some(u) => a.push(("used"@, u)),
        None => a,
    };
    match (total, used) {
        (Some(t), Some(u)) => if u <= t {
            b.push(("free"@, (t - u) as u64))
        } else {
            b
        },
        _ => b,
    }
}

pub fn memory_states(total: Option<u64>, used: Option<u64>) -> (r: Vec<(&'static str, u64)>)
    ensures
        r@.map_values(|p: (&'static str, u64)| (p.0@, p.1)) == memory_states_spec(total, used),
{
    let mut out: Vec<(&'static str, u64)> = Vec::new();
    match total {
        Some(t) => out.push(("total", t)),
        None => {},
    }
    match used {
        Some(u) => out.push(("used", u)),
        None => {},
    }
    match (total, used) {
        (Some(t), Some(u)) => {
            if u <= t {
                out.push(("free", t - u));
            }
        },
        _ => {},
    }
    assert(out@.map_values(|p: (&'static str, u64)| (p.0@, p.1)) =~= memory_states_spec(total, used));
    out
}

/// Whether a GPU's clocks are better taken from `gpu_metrics` than from
/// the DPM tables (the Steam Deck's APUs).
pub fn prefer_gpu_metrics_clock(pci_device_id: Option<&str>) -> (r: bool)
    ensures
        r == (match pci_device_id {
            Some(d) => d@ == "0x1435"@ || d@ == "0x163f"@,
            None => false,
        }),
{
    match pci_device_id {
        Some(d) => {
            let c = chars_of(d);
            chars_eq(&c, &chars_of("0x1435")) || chars_eq(&c, &chars_of("0x163f"))
        },
        None => false,
    }
}

/// Whether a card is AMD's: its PCI vendor is 0x1002.
pub fn is_amd_vendor(vendor: Option<&str>) -> (r: bool)
    ensures
        r == (match vendor {
            Some(v) => v@ == "0x1002"@,
            None => false,
        }),
{
    match vendor {
        Some(v) => chars_eq(&chars_of(v), &chars_of("0x1002")),
        None => false,
    }
}

/// The collector's configuration and the errors it has counted.
#[derive(Debug, Clone)]
pub struct LinuxAmdgpuCollector {
    pub config: crate::config::LinuxAmdgpuConfig,
    pub errors_total: u64,
}

impl LinuxAmdgpuCollector {
    pub fn new(config: crate::config::LinuxAmdgpuConfig) -> (r: Self)
        ensures
            r.config == config,
            r.errors_total == 0,
    {
        LinuxAmdgpuCollector { config, errors_total: 0 }
    }

    /// The discovery line: the root is missing, it could not be read, or
    /// the AMD cards found.
    pub fn discover_summary(root_exists: bool, root_error: Option<String>, cards: usize) -> (r: String)
        ensures
            r@ == (if !root_exists {
                "unavailable, root missing"@
            } else {
                match root_error {
                    Some(e) => "error: "@ + e@,
                    None => "available, amd_cards="@ + decimal(cards as nat),
                }
            }),
    {
        if !root_exists {
            return string_of(&chars_of("unavailable, root missing"));
        }
        match root_error {
            Some(e) => string_of(&concat(&chars_of("error: "), &chars_of(e.as_str()))),
            None => string_of(&concat(&chars_of("available, amd_cards="), &decimal_chars(cards as u64))),
        }
    }
}

} // verus!
