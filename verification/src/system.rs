//! Host basics read from procfs: CPU time counters, memory figures, and the
//! per-CPU frequency entries of `/proc/cpuinfo`, with the ordering by CPU
//! index that the samples are published in.

use vstd::prelude::*;

use crate::text::{
    chars_eq, chars_of, lines, lines_of, parse_u32_chars, parse_u64_chars, parse_unsigned, runs,
    runs_of, split_once, split_once_chars, starts_with, starts_with_chars, string_of, trim,
    trim_chars, CharClass,
};

verus! {

pub const COLLECTOR_NAME: &'static str = "system";
pub const SOURCE: &'static str = "system";
pub const LINUX_CPUFREQ_SOURCE: &'static str = "linux_cpufreq";
pub const LINUX_PROC_CPUINFO_SOURCE: &'static str = "linux_proc_cpuinfo";

/// The discovery line of the system collector.
pub fn system_discover_summary(config: &crate::config::SystemConfig) -> (r: String)
    ensures
        r@ == (if config.enabled {
            "available"@
        } else {
            "disabled"@
        }),
{
    if config.enabled {
        string_of(&chars_of("available"))
    } else {
        string_of(&chars_of("disabled"))
    }
}

// ---------------------------------------------------------------------------
// /proc/stat
// ---------------------------------------------------------------------------

/// The aggregate CPU counters of `/proc/stat`: idle time and all time.
#[derive(Debug, Clone, Copy, PartialEq, Eq)]
pub struct LinuxCpuTimes {
    pub idle: u64,
    pub total: u64,
}

/// The first line that starts with `prefix`.
pub open spec fn first_line_with_prefix(ls: Seq<Seq<char>>, prefix: Seq<char>) -> Option<Seq<char>>
    decreases ls.len(),
{
    if ls.len() == 0 {
        None
    } else if starts_with(ls[0], prefix) {
        Some(ls[0])
    } else {
        first_line_with_prefix(ls.drop_first(), prefix)
    }
}

pub open spec fn u64_value(tok: Seq<char>) -> Option<nat> {
    parse_unsigned(tok, 10, u64::MAX as nat)
}

/// Every token reads as a `u64`.
pub open spec fn all_u64(toks: Seq<Seq<char>>) -> bool {
    forall|i: int| 0 <= i < toks.len() ==> (#[trigger] u64_value(toks[i])) is Some
}

/// The values of tokens that all read as `u64`.
pub open spec fn u64_values(toks: Seq<Seq<char>>) -> Seq<nat> {
    Seq::new(toks.len(), |i: int| u64_value(toks[i])->0)
}

pub open spec fn nat_sum(s: Seq<nat>) -> nat
    decreases s.len(),
{
    if s.len() == 0 {
        0
    } else {
        nat_sum(s.drop_last()) + s.last()
    }
}

pub proof fn lemma_nat_sum_prefix(s: Seq<nat>, i: int)
    requires
        0 <= i <= s.len(),
    ensures
        nat_sum(s.take(i)) <= nat_sum(s),
    decreases s.len() - i,
{
    if i < s.len() {
        lemma_nat_sum_prefix(s, i + 1);
        assert(s.take(i + 1).drop_last() =~= s.take(i));
    } else {
        assert(s.take(i) =~= s);
    }
}

/// The counters of the `cpu ` line: idle is the fourth value plus the fifth
/// (iowait, when present, adding with saturation), total the sum of all of
/// them. Absent when there is no such line, a value does not read as a
/// `u64`, or there are fewer than four values.
pub open spec fn cpu_times_spec(text: Seq<char>) -> Option<(nat, nat)> {
    match first_line_with_prefix(lines(text), "cpu "@) {
        None => None,
        Some(line) => {
            let toks = runs(line, CharClass::NonWhitespace).drop_first();
            if runs(line, CharClass::NonWhitespace).len() == 0 || !all_u64(toks) || toks.len() < 4 {
                None
            } else {
                let v = u64_values(toks);
                let iowait: nat = if v.len() > 4 {
                    v[4]
                } else {
                    0
                };
                let idle: nat = if v[3] + iowait > u64::MAX {
                    u64::MAX as nat
                } else {
                    v[3] + iowait
                };
                Some((idle, nat_sum(v)))
            }
        },
    }
}

/// The `cpu ` line's total fits in a `u64` (summing it cannot overflow).
pub open spec fn cpu_times_fit(text: Seq<char>) -> bool {
    match cpu_times_spec(text) {
        Some((_, total)) => total <= u64::MAX,
        None => true,
    }
}

/// The values of the `cpu ` line: absent when there is no such line or a
/// value does not read as a `u64`.
pub open spec fn cpu_line_values(text: Seq<char>) -> Option<Seq<nat>> {
    match first_line_with_prefix(lines(text), "cpu "@) {
        None => None,
        Some(line) => {
            let toks = runs(line, CharClass::NonWhitespace).drop_first();
            if runs(line, CharClass::NonWhitespace).len() == 0 || !all_u64(toks) {
                None
            } else {
                Some(u64_values(toks))
            }
        },
    }
}

fn cpu_line_values_exec(text: &str) -> (r: Option<Vec<u64>>)
    ensures
        match r {
            Some(v) => cpu_line_values(text@) == Some(v@.map_values(|x: u64| x as nat)),
            None => cpu_line_values(text@) is None,
        },
{
    let all = lines_of(&chars_of(text));
    let ghost ls = lines(text@);
    let prefix = chars_of("cpu ");
    let mut i: usize = 0;
    let mut found: Option<usize> = None;
    assert(ls.skip(0) =~= ls);
    while i < all.len() && found.is_none()
        invariant
            0 <= i <= all.len(),
            all@.len() == ls.len(),
            forall|k: int| 0 <= k < all@.len() ==> (#[trigger] all@[k])@ == ls[k],
            prefix@ == "cpu "@,
            found matches Some(k) ==> k < all@.len() && starts_with(ls[k as int], "cpu "@)
                && first_line_with_prefix(ls, "cpu "@) == first_line_with_prefix(ls.skip(k as int), "cpu "@),
            found is None ==> first_line_with_prefix(ls, "cpu "@) == first_line_with_prefix(ls.skip(i as int), "cpu "@),
        decreases all.len() - i, if found is None { 1int } else { 0int },
    {
        if starts_with_chars(&all[i], &prefix) {
            found = Some(i);
        } else {
            assert(ls.skip(i as int).drop_first() =~= ls.skip(i + 1));
            i += 1;
        }
    }
    let idx = match found {
        None => {
            assert(ls.skip(i as int).len() == 0);
            return None;
        },
        Some(k) => k,
    };
    let line = &all[idx];
    assert(ls.skip(idx as int)[0] == ls[idx as int]);
    assert(first_line_with_prefix(ls, "cpu "@) == Some(line@));
    let toks = runs_of(line, CharClass::NonWhitespace);
    let ghost rs = runs(line@, CharClass::NonWhitespace);
    if toks.len() == 0 {
        return None;
    }
    let ghost tail = rs.drop_first();
    let mut values: Vec<u64> = Vec::new();
    let mut j: usize = 1;
    while j < toks.len()
        invariant
            1 <= j <= toks.len(),
            toks@.len() == rs.len(),
            forall|k: int| 0 <= k < toks@.len() ==> (#[trigger] toks@[k])@ == rs[k],
            tail == rs.drop_first(),
            values@.len() == j - 1,
            forall|k: int| 0 <= k < j - 1 ==> u64_value(#[trigger] tail[k]) == Some(values@[k] as nat),
            ls == lines(text@),
            first_line_with_prefix(ls, "cpu "@) == Some(line@),
            rs == runs(line@, CharClass::NonWhitespace),
            rs.len() > 0,
        decreases toks.len() - j,
    {
        match parse_u64_chars(&toks[j]) {
            Some(v) => {
                values.push(v);
            },
            None => {
                assert(u64_value(tail[j - 1]) is None);
                return None;
            },
        }
        j += 1;
    }
    assert(all_u64(tail));
    let ghost vs = u64_values(tail);
    assert forall|k: int| 0 <= k < values@.len() implies values@[k] as nat == #[trigger] vs[k] by {}
    assert(values@.map_values(|x: u64| x as nat) =~= vs);
    Some(values)
}

/// Whether summing the `cpu ` line's values stays within `u64`.
pub fn linux_cpu_times_fit(text: &str) -> (r: bool)
    ensures
        r == cpu_times_fit(text@),
{
    let values = match cpu_line_values_exec(text) {
        None => return true,
        Some(v) => v,
    };
    let ghost vs = values@.map_values(|x: u64| x as nat);
    if values.len() < 4 {
        return true;
    }
    proof {
        assert(cpu_times_spec(text@) matches Some((_, t)) && t == nat_sum(vs));
    }
    let mut total: u64 = 0;
    let mut k: usize = 0;
    while k < values.len()
        invariant
            0 <= k <= values.len(),
            vs == values@.map_values(|x: u64| x as nat),
            total as nat == nat_sum(vs.take(k as int)),
            cpu_times_spec(text@) matches Some((_, t)) && t == nat_sum(vs),
        decreases values.len() - k,
    {
        assert(vs.take(k + 1).drop_last() =~= vs.take(k as int));
        match total.checked_add(values[k]) {
            Some(t) => total = t,
            None => {
                proof {
                    lemma_nat_sum_prefix(vs, k + 1);
                    assert(vs.take(k + 1).last() == vs[k as int]);
                    assert(nat_sum(vs.take(k + 1)) == nat_sum(vs.take(k as int)) + vs[k as int]);
                }
                return false;
            },
        }
        k += 1;
    }
    assert(vs.take(k as int) =~= vs);
    true
}

/// Reads the aggregate CPU counters from the text of `/proc/stat`.
pub fn parse_linux_cpu_times(text: &str) -> (r: Option<LinuxCpuTimes>)
    requires
        cpu_times_fit(text@),
    ensures
        match r {
            Some(t) => cpu_times_spec(text@) == Some((t.idle as nat, t.total as nat)),
            None => cpu_times_spec(text@) is None,
        },
{
    let values = match cpu_line_values_exec(text) {
        None => return None,
        Some(v) => v,
    };
    let ghost vs = values@.map_values(|x: u64| x as nat);
    if values.len() < 4 {
        return None;
    }
    let iowait: u64 = if values.len() > 4 {
        values[4]
    } else {
        0
    };
    let idle = values[3].saturating_add(iowait);
    let mut total: u64 = 0;
    let mut k: usize = 0;
    proof {
        assert(cpu_times_spec(text@) == Some((idle as nat, nat_sum(vs))));
    }
    while k < values.len()
        invariant
            0 <= k <= values.len(),
            vs == values@.map_values(|x: u64| x as nat),
            total as nat == nat_sum(vs.take(k as int)),
            nat_sum(vs) <= u64::MAX,
        decreases values.len() - k,
    {
        proof {
            assert(vs.take(k + 1).drop_last() =~= vs.take(k as int));
            lemma_nat_sum_prefix(vs, k + 1);
        }
        total = total + values[k];
        k += 1;
    }
    assert(vs.take(k as int) =~= vs);
    Some(LinuxCpuTimes { idle, total })
}

/// The busy and all time between two readings: none when the total went
/// backwards or did not move; the idle delta saturates at zero and is
/// capped by the total delta.
pub open spec fn cpu_usage_delta_spec(previous: LinuxCpuTimes, current: LinuxCpuTimes) -> Option<(u64, u64)> {
    if current.total < previous.total || current.total == previous.total {
        None
    } else {
        let total_delta = (current.total - previous.total) as int;
        let idle_raw = if current.idle >= previous.idle {
            current.idle - previous.idle
        } else {
            0
        };
        let idle_delta = if idle_raw < total_delta {
            idle_raw
        } else {
            total_delta
        };
        Some(((total_delta - idle_delta) as u64, total_delta as u64))
    }
}

/// The busy and all time between two readings, for the usage ratio
/// `busy / total`.
pub fn cpu_usage_delta(previous: LinuxCpuTimes, current: LinuxCpuTimes) -> (r: Option<(u64, u64)>)
    ensures
        r == cpu_usage_delta_spec(previous, current),
{
    let total_delta = match current.total.checked_sub(previous.total) {
        Some(d) => d,
        None => return None,
    };
    if total_delta == 0 {
        return None;
    }
    let idle_raw = current.idle.saturating_sub(previous.idle);
    let idle_delta = if idle_raw < total_delta {
        idle_raw
    } else {
        total_delta
    };
    Some((total_delta - idle_delta, total_delta))
}


/// CPU usage between two readings: there is none unless the total grew.
/// When it grew, the time measured is the growth of the total, and the busy
/// time is the part of it that was not idle: busy time and idle growth (none
/// if the idle counter went back, at most the total growth) add up to the
/// total growth.
pub proof fn lemma_cpu_usage_delta_busy_is_not_idle(previous: LinuxCpuTimes, current: LinuxCpuTimes)
    ensures
        (cpu_usage_delta_spec(previous, current) is None) == (current.total <= previous.total),
        cpu_usage_delta_spec(previous, current) matches Some((busy, total)) ==> {
            let idle_growth: int = if current.idle >= previous.idle {
                current.idle - previous.idle
            } else {
                0
            };
            let idle_part: int = if idle_growth < total {
                idle_growth
            } else {
                total as int
            };
            &&& total == current.total - previous.total
            &&& total > 0
            &&& busy <= total
            &&& busy + idle_part == total
        },
{
}
/// The provider's memory of the previous CPU reading.
#[derive(Debug, Clone, Copy)]
pub struct DefaultSystemProvider {
    pub previous_cpu_times: Option<LinuxCpuTimes>,
}

impl DefaultSystemProvider {
    pub fn new() -> (r: Self)
        ensures
            r.previous_cpu_times is None,
    {
        DefaultSystemProvider { previous_cpu_times: None }
    }

    /// Takes a new reading: it replaces the previous one, and the usage
    /// between the two is returned (none on the first reading).
    pub fn observe_cpu_times(&mut self, current: LinuxCpuTimes) -> (r: Option<(u64, u64)>)
        ensures
            final(self).previous_cpu_times == Some(current),
            r == (match old(self).previous_cpu_times {
                Some(p) => cpu_usage_delta_spec(p, current),
                None => None,
            }),
    {
        let previous = self.previous_cpu_times;
        self.previous_cpu_times = Some(current);
        match previous {
            Some(p) => cpu_usage_delta(p, current),
            None => None,
        }
    }
}

// ---------------------------------------------------------------------------
// /proc/meminfo
// ---------------------------------------------------------------------------

/// The value of a `/proc/meminfo` line for `key`, in bytes: the line starts
/// with the key, its first field reads as KiB, and the bytes fit in a `u64`.
pub open spec fn meminfo_line_bytes(line: Seq<char>, key: Seq<char>) -> Option<nat> {
    if !starts_with(line, key) {
        None
    } else {
        let toks = runs(line.skip(key.len() as int), CharClass::NonWhitespace);
        if toks.len() == 0 {
            None
        } else {
            match u64_value(toks[0]) {
                Some(kib) => if kib * 1024 <= u64::MAX {
                    Some(kib * 1024)
                } else {
                    None
                },
                None => None,
            }
        }
    }
}

/// The first line that gives a value for `key`.
pub open spec fn meminfo_bytes_spec(ls: Seq<Seq<char>>, key: Seq<char>) -> Option<nat>
    decreases ls.len(),
{
    if ls.len() == 0 {
        None
    } else {
        match meminfo_line_bytes(ls[0], key) {
            Some(v) => Some(v),
            None => meminfo_bytes_spec(ls.drop_first(), key),
        }
    }
}

fn meminfo_line_value(line: &[char], key: &[char]) -> (r: Option<u64>)
    ensures
        match r {
            Some(v) => meminfo_line_bytes(line@, key@) == Some(v as nat),
            None => meminfo_line_bytes(line@, key@) is None,
        },
{
    if !starts_with_chars(line, key) {
        return None;
    }
    let rest = crate::text::slice_chars(line, key.len(), line.len());
    assert(rest@ =~= line@.skip(key@.len() as int));
    let toks = runs_of(&rest, CharClass::NonWhitespace);
    if toks.len() == 0 {
        return None;
    }
    match parse_u64_chars(&toks[0]) {
        Some(kib) => kib.checked_mul(1024),
        None => None,
    }
}

/// The bytes `/proc/meminfo` gives for `key` (such as `MemTotal:`): the
/// first line that starts with it and whose first field reads as KiB.
pub fn linux_meminfo_bytes(text: &str, key: &str) -> (r: Option<u64>)
    ensures
        match r {
            Some(v) => meminfo_bytes_spec(lines(text@), key@) == Some(v as nat),
            None => meminfo_bytes_spec(lines(text@), key@) is None,
        },
{
    let all = lines_of(&chars_of(text));
    let k = chars_of(key);
    let ghost ls = lines(text@);
    let mut i: usize = 0;
    assert(ls.skip(0) =~= ls);
    while i < all.len()
        invariant
            0 <= i <= all.len(),
            all@.len() == ls.len(),
            forall|m: int| 0 <= m < all@.len() ==> (#[trigger] all@[m])@ == ls[m],
            k@ == key@,
            ls == lines(text@),
            meminfo_bytes_spec(ls, key@) == meminfo_bytes_spec(ls.skip(i as int), key@),
        decreases all.len() - i,
    {
        assert(ls.skip(i as int)[0] == ls[i as int]);
        match meminfo_line_value(&all[i], &k) {
            Some(v) => {
                assert(meminfo_line_bytes(ls.skip(i as int)[0], key@) == Some(v as nat));
                assert(ls.skip(i as int).len() > 0);
                assert(meminfo_bytes_spec(ls.skip(i as int), key@) == Some(v as nat));
                return Some(v);
            },
            None => {},
        }
        assert(ls.skip(i as int).drop_first() =~= ls.skip(i + 1));
        i += 1;
    }
    None
}

/// Available memory: `MemAvailable:`, else `MemFree:`.
pub fn linux_memory_available_bytes(text: &str) -> (r: Option<u64>)
    ensures
        match r {
            Some(v) => match meminfo_bytes_spec(lines(text@), "MemAvailable:"@) {
                Some(a) => v as nat == a,
                None => meminfo_bytes_spec(lines(text@), "MemFree:"@) == Some(v as nat),
            },
            None => meminfo_bytes_spec(lines(text@), "MemAvailable:"@) is None
                && meminfo_bytes_spec(lines(text@), "MemFree:"@) is None,
        },
{
    match linux_meminfo_bytes(text, "MemAvailable:") {
        Some(v) => Some(v),
        None => linux_meminfo_bytes(text, "MemFree:"),
    }
}

/// The memory in use, published only when the figures are consistent
/// (what is available does not exceed the total).
pub fn used_memory_bytes(total: Option<u64>, available: Option<u64>) -> (r: Option<u64>)
    ensures
        r == (match (total, available) {
            (Some(t), Some(a)) => if a <= t {
                Some((t - a) as u64)
            } else {
                None
            },
            _ => None,
        }),
{
    match (total, available) {
        (Some(t), Some(a)) => if a <= t {
            Some(t - a)
        } else {
            None
        },
        _ => None,
    }
}

/// A logical CPU count is published only when it is positive.
pub fn published_cpu_count(count: Option<u64>) -> (r: Option<u64>)
    ensures
        r == (match count {
            Some(c) => if c > 0 {
                Some(c)
            } else {
                None
            },
            None => None,
        }),
{
    match count {
        Some(c) => if c > 0 {
            Some(c)
        } else {
            None
        },
        None => None,
    }
}

// ---------------------------------------------------------------------------
// CPU frequency entries
// ---------------------------------------------------------------------------

/// The index of a sysfs CPU directory such as `cpu12`.
pub open spec fn cpu_index_spec(name: Seq<char>) -> Option<nat> {
    if starts_with(name, "cpu"@) {
        parse_unsigned(name.skip(3), 10, u32::MAX as nat)
    } else {
        None
    }
}

pub fn parse_linux_cpu_index(cpu_name: &str) -> (r: Option<u32>)
    ensures
        match r {
            Some(v) => cpu_index_spec(cpu_name@) == Some(v as nat),
            None => cpu_index_spec(cpu_name@) is None,
        },
{
    let name = chars_of(cpu_name);
    let prefix = chars_of("cpu");
    if !starts_with_chars(&name, &prefix) {
        return None;
    }
    proof {
        reveal_strlit("cpu");
    }
    let rest = crate::text::slice_chars(&name, 3, name.len());
    assert(rest@ =~= cpu_name@.skip(3));
    parse_u32_chars(&rest)
}

/// The `(cpu, MHz text)` entries of `/proc/cpuinfo`: a `processor` line
/// sets the current CPU (cleared when its value does not read as `u32`);
/// a `cpu MHz` line yields an entry for the current CPU and consumes it.
/// Lines without a `:` are skipped; keys and values are trimmed.
pub open spec fn cpuinfo_entries_from(ls: Seq<Seq<char>>, cur: Option<nat>) -> Seq<(nat, Seq<char>)>
    decreases ls.len(),
{
    if ls.len() == 0 {
        seq![]
    } else {
        let rest = ls.drop_first();
        match split_once(ls[0], ':') {
            None => cpuinfo_entries_from(rest, cur),
            Some((k, v)) => if trim(k) == "processor"@ {
                cpuinfo_entries_from(rest, parse_unsigned(trim(v), 10, u32::MAX as nat))
            } else if trim(k) == "cpu MHz"@ {
                match cur {
                    None => cpuinfo_entries_from(rest, None),
                    Some(c) => seq![(c, trim(v))] + cpuinfo_entries_from(rest, None),
                }
            } else {
                cpuinfo_entries_from(rest, cur)
            },
        }
    }
}

pub open spec fn cpuinfo_entries(text: Seq<char>) -> Seq<(nat, Seq<char>)> {
    cpuinfo_entries_from(lines(text), None)
}

pub open spec fn opt_u32_nat(o: Option<u32>) -> Option<nat> {
    match o {
        Some(v) => Some(v as nat),
        None => None,
    }
}

/// The `(cpu, MHz text)` entries of `/proc/cpuinfo`, in the order of the
/// file; the text is read as a number by the caller.
pub fn proc_cpuinfo_frequency_entries(text: &str) -> (r: Vec<(u32, String)>)
    ensures
        r@.len() == cpuinfo_entries(text@).len(),
        forall|i: int|
            0 <= i < r@.len() ==> (#[trigger] r@[i]).0 as nat == cpuinfo_entries(text@)[i].0
                && r@[i].1@ == cpuinfo_entries(text@)[i].1,
{
    let all = lines_of(&chars_of(text));
    let ghost ls = lines(text@);
    let processor = chars_of("processor");
    let mhz = chars_of("cpu MHz");
    let mut out: Vec<(u32, String)> = Vec::new();
    let ghost mut done: Seq<(nat, Seq<char>)> = seq![];
    let mut current: Option<u32> = None;
    let mut i: usize = 0;
    assert(ls.skip(0) =~= ls);
    assert(cpuinfo_entries(text@) =~= done + cpuinfo_entries_from(ls.skip(0), None));
    while i < all.len()
        invariant
            0 <= i <= all.len(),
            all@.len() == ls.len(),
            forall|m: int| 0 <= m < all@.len() ==> (#[trigger] all@[m])@ == ls[m],
            processor@ == "processor"@,
            mhz@ == "cpu MHz"@,
            out@.len() == done.len(),
            forall|m: int|
                0 <= m < out@.len() ==> (#[trigger] out@[m]).0 as nat == done[m].0 && out@[m].1@
                    == done[m].1,
            cpuinfo_entries(text@) == done + cpuinfo_entries_from(ls.skip(i as int), opt_u32_nat(current)),
        decreases all.len() - i,
    {
        let ghost rest = ls.skip(i as int);
        assert(rest[0] == ls[i as int]);
        assert(rest.drop_first() =~= ls.skip(i + 1));
        match split_once_chars(&all[i], ':') {
            None => {},
            Some((k, v)) => {
                let key = trim_chars(&k);
                let value = trim_chars(&v);
                if chars_eq(&key, &processor) {
                    current = parse_u32_chars(&value);
                } else if chars_eq(&key, &mhz) {
                    match current {
                        None => {},
                        Some(c) => {
                            let entry = (c, string_of(&value));
                            proof {
                                let ghost e: (nat, Seq<char>) = (c as nat, value@);
                                assert(done + cpuinfo_entries_from(rest, opt_u32_nat(current))
                                    =~= done.push(e) + cpuinfo_entries_from(ls.skip(i + 1), None));
                                done = done.push(e);
                            }
                            out.push(entry);
                            current = None;
                        },
                    }
                }
            },
        }
        i += 1;
    }
    assert(ls.skip(i as int).len() == 0);
    assert(done + cpuinfo_entries_from(ls.skip(i as int), opt_u32_nat(current)) =~= done);
    out
}

// ---------------------------------------------------------------------------
// Ordering samples by CPU
// ---------------------------------------------------------------------------

/// Where an item with key `k` goes in front of all items with key `>= k`.
pub open spec fn insert_before_pos<T>(s: Seq<(u32, T)>, k: u32) -> int {
    match crate::text::first_match(s.len() as int, |j: int| s[j].0 >= k) {
        Some(p) => p,
        None => s.len() as int,
    }
}

/// The items ordered by CPU index, items with the same index keeping their
/// order (`sort_by_key` is stable).
pub open spec fn sorted_by_cpu<T>(s: Seq<(u32, T)>) -> Seq<(u32, T)>
    decreases s.len(),
{
    if s.len() == 0 {
        s
    } else {
        let rest = sorted_by_cpu(s.drop_first());
        rest.insert(insert_before_pos(rest, s[0].0), s[0])
    }
}

pub open spec fn ordered_by_cpu<T>(s: Seq<(u32, T)>) -> bool {
    forall|i: int, j: int| 0 <= i < j < s.len() ==> s[i].0 <= s[j].0
}

pub proof fn lemma_insert_keeps_order<T>(s: Seq<(u32, T)>, x: (u32, T))
    requires
        ordered_by_cpu(s),
    ensures
        ordered_by_cpu(s.insert(insert_before_pos(s, x.0), x)),
        0 <= insert_before_pos(s, x.0) <= s.len(),
{
    let f = |j: int| s[j].0 >= x.0;
    let p = insert_before_pos(s, x.0);
    crate::text::lemma_first_match_props(s.len() as int, f);
    let t = s.insert(p, x);
    s.insert_ensures(p, x);
    assert forall|i: int, j: int| 0 <= i < j < t.len() implies t[i].0 <= t[j].0 by {
        if j < p {
        } else if j == p {
            assert(!f(i));
        } else {
            assert(t[(j - 1) + 1] == s[j - 1]);
            if i < p {
            } else if i == p {
                assert(f(p));
            } else {
                assert(t[(i - 1) + 1] == s[i - 1]);
            }
        }
    }
}

/// The sort yields its items in order of CPU index, and the same items.
pub proof fn lemma_sorted_by_cpu<T>(s: Seq<(u32, T)>)
    ensures
        ordered_by_cpu(sorted_by_cpu(s)),
        sorted_by_cpu(s).to_multiset() == s.to_multiset(),
    decreases s.len(),
{
    broadcast use vstd::seq_lib::to_multiset_insert;
    broadcast use vstd::seq_lib::to_multiset_remove;
    broadcast use vstd::seq_lib::to_multiset_contains;
    broadcast use vstd::multiset::group_multiset_axioms;

    if s.len() > 0 {
        lemma_sorted_by_cpu(s.drop_first());
        let rest = sorted_by_cpu(s.drop_first());
        lemma_insert_keeps_order(rest, s[0]);
        assert(s.remove(0) =~= s.drop_first());
        assert(s.contains(s[0]));
        assert(sorted_by_cpu(s).to_multiset() =~= s.to_multiset());
    }
}

/// Orders frequency samples by CPU index, keeping the order of samples of
/// the same CPU.
pub fn sort_cpu_frequency_samples<T>(samples: Vec<(u32, T)>) -> (r: Vec<(u32, T)>)
    ensures
        r@ == sorted_by_cpu(samples@),
        ordered_by_cpu(r@),
        r@.to_multiset() == samples@.to_multiset(),
{
    let ghost s = samples@;
    let mut items = samples;
    let mut out: Vec<(u32, T)> = Vec::new();
    assert(s.skip(s.len() as int) =~= Seq::<(u32, T)>::empty());
    assert(items@ =~= s.take(s.len() as int));
    while items.len() > 0
        invariant
            items@ == s.take(items@.len() as int),
            items@.len() <= s.len(),
            out@ == sorted_by_cpu(s.skip(items@.len() as int)),
        decreases items.len(),
    {
        let ghost n = items@.len() as int;
        let x = items.pop().unwrap();
        assert(x == s[n - 1]);
        assert(items@ =~= s.take(n - 1));
        let ghost rest = out@;
        let mut p: usize = 0;
        while p < out.len() && out[p].0 < x.0
            invariant
                0 <= p <= out@.len(),
                out@ == rest,
                forall|j: int| 0 <= j < p ==> !(#[trigger] rest[j].0 >= x.0),
            decreases out.len() - p,
        {
            p += 1;
        }
        proof {
            crate::text::lemma_first_match_from(0, rest.len() as int, |j: int| rest[j].0 >= x.0, p as int);
            assert(s.skip(n - 1).drop_first() =~= s.skip(n));
            assert(s.skip(n - 1)[0] == x);
        }
        out.insert(p, x);
    }
    assert(s.skip(0) =~= s);
    proof {
        lemma_sorted_by_cpu(s);
    }
    out
}

} // verus!
