//! The macOS thermal state collector: its configuration, error count and
//! discovery line, and the one-hot set of state gauges it publishes.

use vstd::prelude::*;

use crate::config::MacosThermalStateConfig;
use crate::macos::thermal_provider::{
    all_states, thermal_label_spec, DefaultMacosThermalProvider, MacosThermalProvider,
    MacosThermalState,
};
use crate::metrics::LabelSet;
use crate::text::{chars_of, string_of};

verus! {

pub const THERMAL_STATE_COLLECTOR_NAME: &'static str = "macos_thermal_state";
pub const SOURCE: &'static str = "macos_processinfo";

/// The collector's provider and the errors it has counted.
#[derive(Debug, Clone, Copy)]
pub struct MacosThermalStateCollector<P> {
    pub provider: P,
    pub errors_total: u64,
}

impl<P: MacosThermalProvider> MacosThermalStateCollector<P> {
    /// A collector reading from `provider`, with no errors counted.
    pub fn with_provider(provider: P) -> (r: Self)
        ensures
            r.provider == provider,
            r.errors_total == 0,
    {
        MacosThermalStateCollector { provider, errors_total: 0 }
    }

    /// One reading of the provider; a failed one is counted.
    pub fn collect_state(&mut self) -> (r: Result<MacosThermalState, String>)
        requires
            old(self).errors_total < u64::MAX,
        ensures
            final(self).provider == old(self).provider,
            r is Ok ==> final(self).errors_total == old(self).errors_total,
            r is Err ==> final(self).errors_total == old(self).errors_total + 1,
    {
        let reading = self.provider.thermal_state();
        self.record_reading(reading)
    }

    /// A reading of the provider, handed on unchanged; a failed one is
    /// counted.
    pub fn record_reading(
        &mut self,
        reading: Result<MacosThermalState, String>,
    ) -> (r: Result<MacosThermalState, String>)
        requires
            reading is Err ==> old(self).errors_total < u64::MAX,
        ensures
            r == reading,
            final(self).provider == old(self).provider,
            reading is Ok ==> final(self).errors_total == old(self).errors_total,
            reading is Err ==> final(self).errors_total == old(self).errors_total + 1,
    {
        if reading.is_err() {
            self.errors_total = self.errors_total + 1;
        }
        reading
    }

    /// A failed reading is counted.
    pub fn record_failure(&mut self)
        requires
            old(self).errors_total < u64::MAX,
        ensures
            final(self).provider == old(self).provider,
            final(self).errors_total == old(self).errors_total + 1,
    {
        self.errors_total = self.errors_total + 1;
    }
}

impl MacosThermalStateCollector<DefaultMacosThermalProvider> {
    pub fn new(config: MacosThermalStateConfig) -> (r: Self)
        ensures
            r.errors_total == 0,
    {
        MacosThermalStateCollector { provider: DefaultMacosThermalProvider::new(), errors_total: 0 }
    }

    /// The discovery line.
    pub fn discover_summary(config: &MacosThermalStateConfig, on_macos: bool) -> (r: String)
        ensures
            r@ == (if !config.enabled {
                "disabled"@
            } else if on_macos {
                "available"@
            } else {
                "unsupported on this OS"@
            }),
    {
        if !config.enabled {
            string_of(&chars_of("disabled"))
        } else if on_macos {
            string_of(&chars_of("available"))
        } else {
            string_of(&chars_of("unsupported on this OS"))
        }
    }
}

/// One gauge per state: its labels, and whether it is the active state.
pub struct ThermalStateFlag {
    pub state: MacosThermalState,
    pub labels: LabelSet,
    pub active: bool,
}

pub open spec fn flag_labels_spec(s: MacosThermalState) -> Map<Seq<char>, Seq<char>> {
    Map::<Seq<char>, Seq<char>>::empty().insert("source"@, SOURCE@).insert(
        "state"@,
        thermal_label_spec(s),
    )
}

/// The one-hot gauges: every state in publication order, the active one
/// set.
pub fn thermal_state_flags(active: MacosThermalState) -> (r: Vec<ThermalStateFlag>)
    ensures
        r@.len() == all_states().len(),
        forall|i: int|
            0 <= i < r@.len() ==> (#[trigger] r@[i]).state == all_states()[i] && r@[i].labels.wf()
                && r@[i].labels.map() == flag_labels_spec(all_states()[i]) && r@[i].active == (
            all_states()[i] == active),
{
    let states = MacosThermalState::all();
    let mut out: Vec<ThermalStateFlag> = Vec::new();
    let mut i: usize = 0;
    while i < 5
        invariant
            0 <= i <= 5,
            states@ == all_states(),
            out@.len() == i,
            forall|k: int|
                0 <= k < i ==> (#[trigger] out@[k]).state == all_states()[k] && out@[k].labels.wf()
                    && out@[k].labels.map() == flag_labels_spec(all_states()[k]) && out@[k].active
                    == (all_states()[k] == active),
        decreases 5 - i,
    {
        let state = states[i];
        let mut labels = LabelSet::new();
        labels.insert(string_of(&chars_of("source")), string_of(&chars_of(SOURCE)));
        labels.insert(string_of(&chars_of("state")), string_of(&chars_of(state.label())));
        out.push(ThermalStateFlag { state, labels, active: state == active });
        i += 1;
    }
    out
}

/// Exactly one of the one-hot gauges is set, and every state has one.
pub proof fn lemma_thermal_flags_one_hot(active: MacosThermalState)
    ensures
        forall|s: MacosThermalState| #[trigger] all_states().contains(s),
        forall|i: int, j: int|
            0 <= i < all_states().len() && 0 <= j < all_states().len() && all_states()[i] == active
                && all_states()[j] == active ==> i == j,
{
    let a = all_states();
    assert forall|s: MacosThermalState| #[trigger] a.contains(s) by {
        match s {
            MacosThermalState::Nominal => assert(a[0] == s),
            MacosThermalState::Fair => assert(a[1] == s),
            MacosThermalState::Serious => assert(a[2] == s),
            MacosThermalState::Critical => assert(a[3] == s),
            MacosThermalState::Unknown => assert(a[4] == s),
        }
    }
}

} // verus!
