//! The macOS thermal pressure states as `NSProcessInfo.thermalState`
//! reports them.

use vstd::prelude::*;

verus! {

#[derive(Debug, Clone, Copy, PartialEq, Eq, Structural)]
pub enum MacosThermalState {
    Unknown,
    Nominal,
    Fair,
    Serious,
    Critical,
}

/// The source of thermal readings on this build; reading is done by the
/// host program.
#[derive(Debug, Clone, Copy, Default)]
pub struct DefaultMacosThermalProvider;

impl DefaultMacosThermalProvider {
    pub fn new() -> (r: Self) {
        DefaultMacosThermalProvider
    }
}

/// A source of the current thermal state, implemented by the host (and by
/// tests): the state, or the text of the error met reading it.
pub trait MacosThermalProvider {
    fn thermal_state(&self) -> Result<MacosThermalState, String>;
}

/// The message of a provider that cannot read the state on this OS.
pub const UNSUPPORTED_MESSAGE: &'static str = "macos_thermal_state is unsupported on this OS";

impl MacosThermalProvider for DefaultMacosThermalProvider {
    /// This build reads no thermal state itself: every reading fails with
    /// the unsupported message.
    fn thermal_state(&self) -> (r: Result<MacosThermalState, String>)
        ensures
            r matches Err(e) && e@ == UNSUPPORTED_MESSAGE@,
    {
        Err(UNSUPPORTED_MESSAGE.to_string())
    }
}

pub open spec fn thermal_label_spec(s: MacosThermalState) -> Seq<char> {
    match s {
        MacosThermalState::Nominal => "nominal"@,
        MacosThermalState::Fair => "fair"@,
        MacosThermalState::Serious => "serious"@,
        MacosThermalState::Critical => "critical"@,
        MacosThermalState::Unknown => "unknown"@,
    }
}

/// The published numeric level: -1 for unknown, then 0 to 3 by severity.
pub open spec fn thermal_level_spec(s: MacosThermalState) -> int {
    match s {
        MacosThermalState::Unknown => -1,
        MacosThermalState::Nominal => 0,
        MacosThermalState::Fair => 1,
        MacosThermalState::Serious => 2,
        MacosThermalState::Critical => 3,
    }
}

/// The states in publication order.
pub open spec fn all_states() -> Seq<MacosThermalState> {
    seq![
        MacosThermalState::Nominal,
        MacosThermalState::Fair,
        MacosThermalState::Serious,
        MacosThermalState::Critical,
        MacosThermalState::Unknown,
    ]
}

impl MacosThermalState {
    /// Every state, each once, in publication order.
    pub fn all() -> (r: [MacosThermalState; 5])
        ensures
            r@ == all_states(),
    {
        let r = [
            MacosThermalState::Nominal,
            MacosThermalState::Fair,
            MacosThermalState::Serious,
            MacosThermalState::Critical,
            MacosThermalState::Unknown,
        ];
        assert(r@ =~= all_states());
        r
    }

    pub fn label(self) -> (r: &'static str)
        ensures
            r@ == thermal_label_spec(self),
    {
        match self {
            MacosThermalState::Nominal => "nominal",
            MacosThermalState::Fair => "fair",
            MacosThermalState::Serious => "serious",
            MacosThermalState::Critical => "critical",
            MacosThermalState::Unknown => "unknown",
        }
    }

    /// The numeric level behind the published value.
    pub fn numeric_level(self) -> (r: i8)
        ensures
            r as int == thermal_level_spec(self),
    {
        match self {
            MacosThermalState::Unknown => -1,
            MacosThermalState::Nominal => 0,
            MacosThermalState::Fair => 1,
            MacosThermalState::Serious => 2,
            MacosThermalState::Critical => 3,
        }
    }

    /// The state for a raw `thermalState` value; values past the known
    /// ones are unknown.
    pub fn from_process_info_value(value: usize) -> (r: MacosThermalState)
        ensures
            value <= 3 ==> thermal_level_spec(r) == value as int,
            value > 3 ==> r == MacosThermalState::Unknown,
    {
        match value {
            0 => MacosThermalState::Nominal,
            1 => MacosThermalState::Fair,
            2 => MacosThermalState::Serious,
            3 => MacosThermalState::Critical,
            _ => MacosThermalState::Unknown,
        }
    }
}

/// Labels tell the states apart.
pub proof fn lemma_thermal_labels_distinct(a: MacosThermalState, b: MacosThermalState)
    requires
        a != b,
    ensures
        thermal_label_spec(a) != thermal_label_spec(b),
{
    reveal_strlit("nominal");
    reveal_strlit("fair");
    reveal_strlit("serious");
    reveal_strlit("critical");
    reveal_strlit("unknown");
    assert(thermal_label_spec(a).len() != thermal_label_spec(b).len() || thermal_label_spec(a)[0]
        != thermal_label_spec(b)[0]);
}

} // verus!
