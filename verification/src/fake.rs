//! A collector with fixed output, for exercising the exporter without
//! hardware.

use vstd::prelude::*;

use crate::metrics::{labels_spec, LabelSet};

verus! {

pub const FAKE_COLLECTOR_NAME: &'static str = "fake";

#[derive(Debug, Clone, Copy, Default)]
pub struct FakeCollector {
    pub errors_total: u64,
}

impl FakeCollector {
    pub fn new() -> (r: Self)
        ensures
            r.errors_total == 0,
    {
        FakeCollector { errors_total: 0 }
    }

    pub fn name(&self) -> (r: &'static str)
        ensures
            r@ == FAKE_COLLECTOR_NAME@,
    {
        FAKE_COLLECTOR_NAME
    }

    /// The labels of the fixed temperature reading it publishes.
    pub fn reading_labels(&self) -> (r: LabelSet)
        ensures
            r.wf(),
            r.map() == labels_spec(seq![("component", "test"), ("sensor", "fake"), ("source", "fake")]),
    {
        let pairs = [("component", "test"), ("sensor", "fake"), ("source", "fake")];
        let r = crate::metrics::labels(&pairs);
        assert(pairs@ =~= seq![("component", "test"), ("sensor", "fake"), ("source", "fake")]);
        r
    }
}

} // verus!
