//! The Apple Silicon sampler collector: its static SoC description and the
//! labels derived from it, the checks on memory figures, the sampler's
//! error bookkeeping, and what a collection reports from the cached state.

use vstd::prelude::*;

use crate::metrics::LabelSet;
use crate::text::{chars_of, decimal, decimal_chars, string_of};

verus! {

pub const COLLECTOR_NAME: &'static str = "macos_macmon";
pub const SOURCE: &'static str = "macmon";

/// What the sampler reports of the SoC once.
#[derive(Debug, Clone, Default, PartialEq, Eq)]
pub struct MacmonStaticInfo {
    pub mac_model: String,
    pub chip_name: String,
    pub efficiency_cpu_cores: u8,
    pub performance_cpu_cores: u8,
    pub efficiency_cpu_frequencies_mhz: Vec<u32>,
    pub performance_cpu_frequencies_mhz: Vec<u32>,
    pub gpu_cores: u8,
    pub gpu_frequencies_mhz: Vec<u32>,
}

/// The platform sampler. This build has none: creating it fails.
#[derive(Debug)]
pub struct MacmonPlatformProvider;

impl MacmonPlatformProvider {
    pub fn new() -> (r: Result<MacmonPlatformProvider, String>)
        ensures
            r matches Err(e) && e@ == "macos_macmon is unsupported on this OS or architecture"@,
    {
        Err(string_of(&chars_of("macos_macmon is unsupported on this OS or architecture")))
    }
}

/// The discovery line.
pub fn macmon_discover_summary(enabled: bool, platform_supported: bool) -> (r: String)
    ensures
        r@ == (if !enabled {
            "disabled"@
        } else if platform_supported {
            "available"@
        } else {
            "unsupported on this OS or architecture"@
        }),
{
    if !enabled {
        string_of(&chars_of("disabled"))
    } else if platform_supported {
        string_of(&chars_of("available"))
    } else {
        string_of(&chars_of("unsupported on this OS or architecture"))
    }
}

// ---------------------------------------------------------------------------
// Static SoC information
// ---------------------------------------------------------------------------

pub open spec fn soc_identity_spec(info: MacmonStaticInfo) -> Map<Seq<char>, Seq<char>> {
    Map::<Seq<char>, Seq<char>>::empty().insert("component"@, "soc"@).insert("source"@, SOURCE@).insert(
        "model"@,
        info.mac_model@,
    ).insert("chip_name"@, info.chip_name@)
}

/// The SoC identity labels, published when the model or the chip name is
/// known.
pub fn soc_identity_labels(info: &MacmonStaticInfo) -> (r: Option<LabelSet>)
    ensures
        match r {
            Some(l) => (info.mac_model@.len() > 0 || info.chip_name@.len() > 0) && l.wf() && l.map()
                == soc_identity_spec(*info),
            None => info.mac_model@.len() == 0 && info.chip_name@.len() == 0,
        },
{
    let model = chars_of(info.mac_model.as_str());
    let chip = chars_of(info.chip_name.as_str());
    if model.len() == 0 && chip.len() == 0 {
        return None;
    }
    let mut l = LabelSet::new();
    l.insert(string_of(&chars_of("component")), string_of(&chars_of("soc")));
    l.insert(string_of(&chars_of("source")), string_of(&chars_of(SOURCE)));
    l.insert(string_of(&chars_of("model")), string_of(&model));
    l.insert(string_of(&chars_of("chip_name")), string_of(&chip));
    Some(l)
}

/// The core counts that are published: each cluster with cores, and the
/// GPU when it has cores.
pub fn cluster_core_counts(info: &MacmonStaticInfo) -> (r: (Option<u8>, Option<u8>, Option<u8>))
    ensures
        r.0 == (if info.efficiency_cpu_cores > 0 {
            Some(info.efficiency_cpu_cores)
        } else {
            None
        }),
        r.1 == (if info.performance_cpu_cores > 0 {
            Some(info.performance_cpu_cores)
        } else {
            None
        }),
        r.2 == (if info.gpu_cores > 0 {
            Some(info.gpu_cores)
        } else {
            None
        }),
{
    (
        if info.efficiency_cpu_cores > 0 {
            Some(info.efficiency_cpu_cores)
        } else {
            None
        },
        if info.performance_cpu_cores > 0 {
            Some(info.performance_cpu_cores)
        } else {
            None
        },
        if info.gpu_cores > 0 {
            Some(info.gpu_cores)
        } else {
            None
        },
    )
}

/// The available clock states: the index of each non-zero frequency and
/// that frequency in hertz, in order.
pub open spec fn nonzero_clocks(freqs: Seq<u32>) -> Seq<(nat, nat)>
    decreases freqs.len(),
{
    if freqs.len() == 0 {
        seq![]
    } else if freqs.last() == 0 {
        nonzero_clocks(freqs.drop_last())
    } else {
        nonzero_clocks(freqs.drop_last()).push(
            ((freqs.len() - 1) as nat, (freqs.last() as nat) * 1_000_000),
        )
    }
}

pub open spec fn opt_label(m: Map<Seq<char>, Seq<char>>, k: Seq<char>, v: Option<&str>) -> Map<
    Seq<char>,
    Seq<char>,
> {
    match v {
        Some(s) => m.insert(k, s@),
        None => m,
    }
}

pub open spec fn clock_labels_spec(
    component: Seq<char>,
    cluster: Option<&str>,
    gpu_index: Option<&str>,
    index: nat,
) -> Map<Seq<char>, Seq<char>> {
    opt_label(
        opt_label(
            Map::<Seq<char>, Seq<char>>::empty().insert("component"@, component).insert(
                "state"@,
                decimal(index),
            ).insert("source"@, SOURCE@),
            "cluster"@,
            cluster,
        ),
        "gpu_index"@,
        gpu_index,
    )
}

/// One available clock state.
pub struct ClockEntry {
    pub labels: LabelSet,
    pub hertz: u64,
}

/// The available clock states of a component, labelled by state index.
pub fn available_clock_entries(
    component: &str,
    cluster: Option<&str>,
    gpu_index: Option<&str>,
    frequencies_mhz: &[u32],
) -> (r: Vec<ClockEntry>)
    requires
        frequencies_mhz@.len() <= u64::MAX,
    ensures
        r@.len() == nonzero_clocks(frequencies_mhz@).len(),
        forall|i: int|
            0 <= i < r@.len() ==> (#[trigger] r@[i]).hertz as nat == nonzero_clocks(
                frequencies_mhz@,
            )[i].1 && r@[i].labels.wf() && r@[i].labels.map() == clock_labels_spec(
                component@,
                cluster,
                gpu_index,
                nonzero_clocks(frequencies_mhz@)[i].0,
            ),
{
    let mut out: Vec<ClockEntry> = Vec::new();
    let mut i: usize = 0;
    while i < frequencies_mhz.len()
        invariant
            0 <= i <= frequencies_mhz@.len(),
            frequencies_mhz@.len() <= u64::MAX,
            out@.len() == nonzero_clocks(frequencies_mhz@.take(i as int)).len(),
            forall|k: int|
                0 <= k < out@.len() ==> (#[trigger] out@[k]).hertz as nat == nonzero_clocks(
                    frequencies_mhz@.take(i as int),
                )[k].1 && out@[k].labels.wf() && out@[k].labels.map() == clock_labels_spec(
                    component@,
                    cluster,
                    gpu_index,
                    nonzero_clocks(frequencies_mhz@.take(i as int))[k].0,
                ),
        decreases frequencies_mhz.len() - i,
    {
        let f = frequencies_mhz[i];
        assert(frequencies_mhz@.take(i + 1).drop_last() =~= frequencies_mhz@.take(i as int));
        if f != 0 {
            let hertz: u64 = (f as u64) * 1_000_000;
            let mut l = LabelSet::new();
            l.insert(string_of(&chars_of("component")), string_of(&chars_of(component)));
            l.insert(string_of(&chars_of("state")), string_of(&decimal_chars(i as u64)));
            l.insert(string_of(&chars_of("source")), string_of(&chars_of(SOURCE)));
            match cluster {
                Some(c) => l.insert(string_of(&chars_of("cluster")), string_of(&chars_of(c))),
                None => {},
            }
            match gpu_index {
                Some(g) => l.insert(string_of(&chars_of("gpu_index")), string_of(&chars_of(g))),
                None => {},
            }
            out.push(ClockEntry { labels: l, hertz });
        }
        i += 1;
    }
    assert(frequencies_mhz@.take(i as int) =~= frequencies_mhz@);
    out
}

// ---------------------------------------------------------------------------
// Memory figures
// ---------------------------------------------------------------------------

/// A total and used pair after checking, with which of them was rejected.
#[derive(Debug, Clone, Copy, PartialEq, Eq)]
pub struct BytesPair {
    pub total: Option<u64>,
    pub used: Option<u64>,
    pub total_invalid: bool,
    pub used_invalid: bool,
}

pub open spec fn checked_total(total: Option<u64>, allow_zero_total: bool) -> Option<u64> {
    match total {
        Some(t) => if allow_zero_total || t > 0 {
            Some(t)
        } else {
            None
        },
        None => None,
    }
}

/// Keeps a total that is positive (or zero where allowed) and a used
/// figure that does not exceed the kept total; what is dropped is flagged.
pub fn normalize_bytes_pair(total: Option<u64>, used: Option<u64>, allow_zero_total: bool) -> (r:
    BytesPair)
    ensures
        r.total == checked_total(total, allow_zero_total),
        r.total_invalid == (total is Some && r.total is None),
        r.used == (match (used, r.total) {
            (Some(u), Some(t)) => if u <= t {
                Some(u)
            } else {
                None
            },
            _ => None,
        }),
        r.used_invalid == (used is Some && r.used is None),
{
    let (t, total_invalid) = match total {
        Some(v) => if allow_zero_total || v > 0 {
            (Some(v), false)
        } else {
            (None, true)
        },
        None => (None, false),
    };
    let (u, used_invalid) = match (used, t) {
        (Some(uv), Some(tv)) => if uv <= tv {
            (Some(uv), false)
        } else {
            (None, true)
        },
        (Some(_), None) => (None, true),
        (None, _) => (None, false),
    };
    BytesPair { total: t, used: u, total_invalid, used_invalid }
}

// ---------------------------------------------------------------------------
// Sampler bookkeeping
// ---------------------------------------------------------------------------

/// The sampler's error counters.
#[derive(Debug, Clone, Copy, Default, PartialEq, Eq)]
pub struct MacmonCounters {
    pub errors_total: u64,
    pub consecutive_errors: u64,
    pub reinitializations_total: u64,
}

impl MacmonCounters {
    /// A failure to create the sampler: counted, with no reinitialization.
    pub fn record_init_error(&mut self)
        requires
            old(self).errors_total < u64::MAX,
            old(self).consecutive_errors < u64::MAX,
        ensures
            final(self).errors_total == old(self).errors_total + 1,
            final(self).consecutive_errors == old(self).consecutive_errors + 1,
            final(self).reinitializations_total == old(self).reinitializations_total,
    {
        self.errors_total = self.errors_total + 1;
        self.consecutive_errors = self.consecutive_errors + 1;
    }

    /// A failed sample: counted; once the run of failures reaches the
    /// threshold the sampler is dropped for reinitialization (the result),
    /// the run is reset and the reinitialization counted.
    pub fn record_sample_error(&mut self, threshold: u64) -> (reinit: bool)
        requires
            old(self).errors_total < u64::MAX,
            old(self).consecutive_errors < u64::MAX,
            old(self).reinitializations_total < u64::MAX,
        ensures
            final(self).errors_total == old(self).errors_total + 1,
            reinit == (old(self).consecutive_errors + 1 >= threshold),
            reinit ==> final(self).consecutive_errors == 0 && final(self).reinitializations_total
                == old(self).reinitializations_total + 1,
            !reinit ==> final(self).consecutive_errors == old(self).consecutive_errors + 1
                && final(self).reinitializations_total == old(self).reinitializations_total,
    {
        self.errors_total = self.errors_total + 1;
        self.consecutive_errors = self.consecutive_errors + 1;
        if self.consecutive_errors >= threshold {
            self.reinitializations_total = self.reinitializations_total + 1;
            self.consecutive_errors = 0;
            true
        } else {
            false
        }
    }

    /// A good sample ends the run of failures.
    pub fn record_success(&mut self)
        ensures
            final(self).consecutive_errors == 0,
            final(self).errors_total == old(self).errors_total,
            final(self).reinitializations_total == old(self).reinitializations_total,
    {
        self.consecutive_errors = 0;
    }
}

/// What a collection reports from the cached state.
#[derive(Debug, Clone, PartialEq, Eq)]
pub struct MacmonStatus {
    pub up: bool,
    pub success: bool,
    pub error_message: Option<String>,
}

pub open spec fn status_message_spec(
    supported: bool,
    has_latest: bool,
    latest_fresh: bool,
    errors_total: u64,
    last_error: Option<Seq<char>>,
) -> Option<Seq<char>> {
    let up = supported && has_latest && latest_fresh;
    let waiting = supported && !has_latest && errors_total == 0;
    if up {
        None
    } else if !supported {
        Some("macos_macmon is unsupported on this OS or architecture"@)
    } else if last_error is Some {
        last_error
    } else if waiting {
        Some("macos_macmon snapshot is not ready yet"@)
    } else {
        Some("macos_macmon snapshot is stale"@)
    }
}

/// The collector is up when supported and the latest sample is fresh; a
/// collection succeeds when up, unsupported, or still waiting for the
/// first sample with no error seen; otherwise the message says why.
pub fn macmon_collect_status(
    supported: bool,
    has_latest: bool,
    latest_fresh: bool,
    errors_total: u64,
    last_error: Option<String>,
) -> (r: MacmonStatus)
    ensures
        r.up == (supported && has_latest && latest_fresh),
        r.success == (r.up || !supported || (supported && !has_latest && errors_total == 0)),
        (match r.error_message {
            Some(m) => Some(m@),
            None => None,
        }) == status_message_spec(
            supported,
            has_latest,
            latest_fresh,
            errors_total,
            match last_error {
                Some(e) => Some(e@),
                None => None,
            },
        ),
{
    let up = supported && has_latest && latest_fresh;
    let waiting = supported && !has_latest && errors_total == 0;
    let success = up || !supported || waiting;
    let error_message = if up {
        None
    } else if !supported {
        Some(string_of(&chars_of("macos_macmon is unsupported on this OS or architecture")))
    } else if last_error.is_some() {
        last_error
    } else if waiting {
        Some(string_of(&chars_of("macos_macmon snapshot is not ready yet")))
    } else {
        Some(string_of(&chars_of("macos_macmon snapshot is stale")))
    };
    MacmonStatus { up, success, error_message }
}

} // verus!
