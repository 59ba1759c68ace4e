//! Metrics as the exporter publishes them: kinds, the check on a project
//! metric's name, label sets, and the escaping of the Prometheus text
//! format.

pub mod encode;
pub mod names;

use vstd::prelude::*;

use crate::text::{chars_eq, chars_of, concat, starts_with, starts_with_chars, string_of};

verus! {

#[derive(Debug, Clone, Copy, PartialEq, Eq, Structural)]
pub enum MetricKind {
    Gauge,
    Counter,
}

impl MetricKind {
    pub open spec fn text(self) -> Seq<char> {
        match self {
            MetricKind::Gauge => "gauge"@,
            MetricKind::Counter => "counter"@,
        }
    }

    /// The kind as the `# TYPE` line names it.
    pub fn as_str(self) -> (r: &'static str)
        ensures
            r@ == self.text(),
    {
        match self {
            MetricKind::Gauge => "gauge",
            MetricKind::Counter => "counter",
        }
    }
}

#[derive(Debug, Clone, PartialEq, Eq)]
pub enum MetricError {
    /// A metric whose name has none of the project's prefixes.
    InvalidProjectMetricName(String),
}

impl MetricError {
    pub open spec fn message_spec(&self) -> Seq<char> {
        match self {
            MetricError::InvalidProjectMetricName(name) => "project metric name must start with telemon_: "@
                + name@,
        }
    }

    /// The text of the error.
    pub fn message(&self) -> (r: String)
        ensures
            r@ == self.message_spec(),
    {
        match self {
            MetricError::InvalidProjectMetricName(name) => string_of(
                &concat(&chars_of("project metric name must start with telemon_: "), &chars_of(name.as_str())),
            ),
        }
    }
}

/// The prefixes a project metric's name starts with.
pub open spec fn allowed_prefixes() -> Seq<Seq<char>> {
    seq![
        "hardware_"@,
        "system_"@,
        "filesystem_"@,
        "network_"@,
        "exporter_"@,
        "device_"@,
        "macmon_"@,
    ]
}

pub fn allowed_prefix_list() -> (r: Vec<&'static str>)
    ensures
        r@.len() == allowed_prefixes().len(),
        forall|k: int| 0 <= k < r@.len() ==> (#[trigger] r@[k])@ == allowed_prefixes()[k],
{
    let mut v: Vec<&'static str> = Vec::new();
    v.push("hardware_");
    v.push("system_");
    v.push("filesystem_");
    v.push("network_");
    v.push("exporter_");
    v.push("device_");
    v.push("macmon_");
    v
}

pub open spec fn project_metric_name(name: Seq<char>) -> bool {
    exists|k: int| 0 <= k < allowed_prefixes().len() && starts_with(name, #[trigger] allowed_prefixes()[k])
}

/// Accepts a project metric's name, or refuses it with the name.
pub fn validate_metric_name(name: String) -> (r: Result<String, MetricError>)
    ensures
        project_metric_name(name@) ==> r == Ok::<String, MetricError>(name),
        !project_metric_name(name@) ==> r == Err::<String, MetricError>(
            MetricError::InvalidProjectMetricName(name),
        ),
{
    let prefixes = allowed_prefix_list();
    let n = chars_of(name.as_str());
    let mut i: usize = 0;
    while i < prefixes.len()
        invariant
            0 <= i <= prefixes@.len(),
            prefixes@.len() == allowed_prefixes().len(),
            n@ == name@,
            forall|k: int| 0 <= k < prefixes@.len() ==> (#[trigger] prefixes@[k])@ == allowed_prefixes()[k],
            forall|k: int| 0 <= k < i ==> !starts_with(name@, #[trigger] allowed_prefixes()[k]),
        decreases prefixes.len() - i,
    {
        if starts_with_chars(&n, &chars_of(prefixes[i])) {
            assert(starts_with(name@, allowed_prefixes()[i as int]));
            return Ok(name);
        }
        i += 1;
    }
    Err(MetricError::InvalidProjectMetricName(name))
}

// ---------------------------------------------------------------------------
// Label sets
// ---------------------------------------------------------------------------

/// The labels of a metric: a map from label names to values, kept as
/// pairs with no name twice.
#[derive(Debug, Clone)]
pub struct LabelSet {
    pub entries: Vec<(String, String)>,
}

pub open spec fn entry_key(e: (String, String)) -> Seq<char> {
    e.0@
}

/// No label name occurs twice among the pairs.
pub open spec fn keys_unique(s: Seq<(String, String)>) -> bool {
    forall|i: int, j: int| 0 <= i < j < s.len() ==> entry_key(#[trigger] s[i]) != entry_key(#[trigger] s[j])
}

pub open spec fn has_key(s: Seq<(String, String)>, k: Seq<char>) -> bool {
    exists|i: int| 0 <= i < s.len() && entry_key(#[trigger] s[i]) == k
}

/// The map that pairs with unique names stand for.
pub open spec fn pairs_map(s: Seq<(String, String)>) -> Map<Seq<char>, Seq<char>> {
    Map::new(
        |k: Seq<char>| has_key(s, k),
        |k: Seq<char>| {
            let i = choose|i: int| 0 <= i < s.len() && entry_key(#[trigger] s[i]) == k;
            s[i].1@
        },
    )
}

/// Changing the value at an existing name changes the map at that name.
proof fn lemma_pairs_set(before: Seq<(String, String)>, after: Seq<(String, String)>, i: int)
    requires
        keys_unique(before),
        0 <= i < before.len(),
        after == before.update(i, after[i]),
        entry_key(before[i]) == entry_key(after[i]),
    ensures
        keys_unique(after),
        pairs_map(after) == pairs_map(before).insert(entry_key(after[i]), after[i].1@),
{
    let k0 = entry_key(after[i]);
    assert forall|a: int, b: int| 0 <= a < b < after.len() implies entry_key(#[trigger] after[a])
        != entry_key(#[trigger] after[b]) by {
        assert(entry_key(after[a]) == entry_key(before[a]));
        assert(entry_key(after[b]) == entry_key(before[b]));
    }
    let m = pairs_map(before).insert(k0, after[i].1@);
    assert forall|k: Seq<char>| has_key(after, k) <==> m.dom().contains(k) by {
        if has_key(after, k) {
            let j = choose|j: int| 0 <= j < after.len() && entry_key(#[trigger] after[j]) == k;
            assert(entry_key(before[j]) == k);
        }
        if m.dom().contains(k) {
            if k != k0 {
                let j = choose|j: int| 0 <= j < before.len() && entry_key(#[trigger] before[j]) == k;
                assert(entry_key(after[j]) == k);
            } else {
                assert(entry_key(after[i]) == k);
            }
        }
    }
    assert(pairs_map(after).dom() =~= m.dom());
    assert forall|k: Seq<char>| #[trigger] pairs_map(after).dom().contains(k) implies pairs_map(after)[k] == m[k] by {
        let j = choose|j: int| 0 <= j < after.len() && entry_key(#[trigger] after[j]) == k;
        if k == k0 {
            assert(j == i);
        } else {
            let j2 = choose|j2: int| 0 <= j2 < before.len() && entry_key(#[trigger] before[j2]) == k;
            assert(entry_key(after[j2]) == k);
            assert(j2 == j);
        }
    }
    assert(pairs_map(after) =~= m);
}

/// Adding a pair with a new name adds it to the map.
proof fn lemma_pairs_push(before: Seq<(String, String)>, e: (String, String))
    requires
        keys_unique(before),
        !has_key(before, entry_key(e)),
    ensures
        keys_unique(before.push(e)),
        pairs_map(before.push(e)) == pairs_map(before).insert(entry_key(e), e.1@),
{
    let after = before.push(e);
    let n = before.len() as int;
    let k0 = entry_key(e);
    assert forall|a: int, b: int| 0 <= a < b < after.len() implies entry_key(#[trigger] after[a])
        != entry_key(#[trigger] after[b]) by {
        assert(after[a] == before[a]);
        if b < n {
            assert(after[b] == before[b]);
        }
    }
    let m = pairs_map(before).insert(k0, e.1@);
    assert forall|k: Seq<char>| has_key(after, k) <==> m.dom().contains(k) by {
        if has_key(after, k) {
            let j = choose|j: int| 0 <= j < after.len() && entry_key(#[trigger] after[j]) == k;
            if j < n {
                assert(after[j] == before[j]);
            }
        }
        if m.dom().contains(k) {
            if k != k0 {
                let j = choose|j: int| 0 <= j < before.len() && entry_key(#[trigger] before[j]) == k;
                assert(after[j] == before[j]);
            } else {
                assert(entry_key(after[n]) == k);
            }
        }
    }
    assert(pairs_map(after).dom() =~= m.dom());
    assert forall|k: Seq<char>| #[trigger] pairs_map(after).dom().contains(k) implies pairs_map(after)[k] == m[k] by {
        let j = choose|j: int| 0 <= j < after.len() && entry_key(#[trigger] after[j]) == k;
        if k == k0 {
            if j < n {
                assert(after[j] == before[j]);
            }
            assert(j == n);
        } else {
            let j2 = choose|j2: int| 0 <= j2 < before.len() && entry_key(#[trigger] before[j2]) == k;
            assert(after[j2] == before[j2]);
            assert(j2 == j);
        }
    }
    assert(pairs_map(after) =~= m);
}

impl LabelSet {
    pub open spec fn wf(&self) -> bool {
        keys_unique(self.entries@)
    }

    /// The map from label names to values.
    pub open spec fn map(&self) -> Map<Seq<char>, Seq<char>> {
        pairs_map(self.entries@)
    }

    pub fn new() -> (r: Self)
        ensures
            r.wf(),
            r.map() == Map::<Seq<char>, Seq<char>>::empty(),
    {
        let r = LabelSet { entries: Vec::new() };
        assert(r.map() =~= Map::<Seq<char>, Seq<char>>::empty());
        r
    }

    /// The position of `key`, if it is there.
    fn position(&self, key: &[char]) -> (r: Option<usize>)
        ensures
            match r {
                Some(i) => i < self.entries@.len() && entry_key(self.entries@[i as int]) == key@,
                None => !has_key(self.entries@, key@),
            },
    {
        let mut i: usize = 0;
        while i < self.entries.len()
            invariant
                0 <= i <= self.entries@.len(),
                forall|k: int| 0 <= k < i ==> entry_key(#[trigger] self.entries@[k]) != key@,
            decreases self.entries.len() - i,
        {
            if chars_eq(&chars_of(self.entries[i].0.as_str()), key) {
                return Some(i);
            }
            i += 1;
        }
        None
    }

    /// The value of a label.
    pub fn get(&self, key: &str) -> (r: Option<String>)
        requires
            self.wf(),
        ensures
            match r {
                Some(v) => self.map().contains_key(key@) && self.map()[key@] == v@,
                None => !self.map().contains_key(key@),
            },
    {
        match self.position(&chars_of(key)) {
            Some(i) => {
                proof {
                    let j = choose|j: int| 0 <= j < self.entries@.len() && entry_key(#[trigger] self.entries@[j]) == key@;
                    assert(j == i);
                }
                Some(string_of(&chars_of(self.entries[i].1.as_str())))
            },
            None => None,
        }
    }

    /// Sets a label, replacing any value it had.
    pub fn insert(&mut self, key: String, value: String)
        requires
            old(self).wf(),
        ensures
            final(self).wf(),
            final(self).map() == old(self).map().insert(key@, value@),
    {
        let ghost before = self.entries@;
        let ghost k = key@;
        let ghost v = value@;
        match self.position(&chars_of(key.as_str())) {
            Some(i) => {
                self.entries.set(i, (key, value));
                proof {
                    lemma_pairs_set(before, self.entries@, i as int);
                }
            },
            None => {
                let e = (key, value);
                proof {
                    lemma_pairs_push(before, e);
                }
                self.entries.push(e);
            },
        }
    }
}

/// The labels made of name-value pairs: a later pair with the same name
/// replaces an earlier one.
pub open spec fn labels_spec(pairs: Seq<(&str, &str)>) -> Map<Seq<char>, Seq<char>>
    decreases pairs.len(),
{
    if pairs.len() == 0 {
        Map::empty()
    } else {
        labels_spec(pairs.drop_last()).insert(pairs.last().0@, pairs.last().1@)
    }
}

pub fn labels(pairs: &[(&str, &str)]) -> (r: LabelSet)
    ensures
        r.wf(),
        r.map() == labels_spec(pairs@),
{
    let mut set = LabelSet::new();
    let mut i: usize = 0;
    while i < pairs.len()
        invariant
            0 <= i <= pairs@.len(),
            set.wf(),
            set.map() == labels_spec(pairs@.take(i as int)),
        decreases pairs.len() - i,
    {
        let (k, v) = pairs[i];
        assert(pairs@.take(i + 1).drop_last() =~= pairs@.take(i as int));
        set.insert(string_of(&chars_of(k)), string_of(&chars_of(v)));
        i += 1;
    }
    assert(pairs@.take(pairs@.len() as int) =~= pairs@);
    set
}

// ---------------------------------------------------------------------------
// Text format
// ---------------------------------------------------------------------------

/// A `# HELP` text with backslashes and line breaks escaped.
pub open spec fn escape_help_char(c: char) -> Seq<char> {
    if c == '\\' {
        seq!['\\', '\\']
    } else if c == '\n' {
        seq!['\\', 'n']
    } else {
        seq![c]
    }
}

/// A label value with backslashes, line breaks and double quotes escaped.
pub open spec fn escape_label_char(c: char) -> Seq<char> {
    if c == '"' {
        seq!['\\', '"']
    } else {
        escape_help_char(c)
    }
}

pub open spec fn escape_with(s: Seq<char>, label: bool) -> Seq<char>
    decreases s.len(),
{
    if s.len() == 0 {
        seq![]
    } else {
        escape_with(s.drop_last(), label) + if label {
            escape_label_char(s.last())
        } else {
            escape_help_char(s.last())
        }
    }
}

fn escape_chars(s: &[char], label: bool) -> (r: Vec<char>)
    ensures
        r@ == escape_with(s@, label),
{
    let mut out: Vec<char> = Vec::new();
    let mut i: usize = 0;
    while i < s.len()
        invariant
            0 <= i <= s@.len(),
            out@ == escape_with(s@.take(i as int), label),
        decreases s.len() - i,
    {
        let c = s[i];
        assert(s@.take(i + 1).drop_last() =~= s@.take(i as int));
        let ghost before = out@;
        if c == '\\' {
            out.push('\\');
            out.push('\\');
        } else if c == '\n' {
            out.push('\\');
            out.push('n');
        } else if label && c == '"' {
            out.push('\\');
            out.push('"');
        } else {
            out.push(c);
        }
        assert(out@ =~= before + (if label {
            escape_label_char(c)
        } else {
            escape_help_char(c)
        }));
        i += 1;
    }
    assert(s@.take(s@.len() as int) =~= s@);
    out
}

pub fn escape_help(value: &str) -> (r: String)
    ensures
        r@ == escape_with(value@, false),
{
    string_of(&escape_chars(&chars_of(value), false))
}

pub fn escape_label_value(value: &str) -> (r: String)
    ensures
        r@ == escape_with(value@, true),
{
    string_of(&escape_chars(&chars_of(value), true))
}

} // verus!
