//! The Prometheus text exposition of a set of samples: samples ordered by
//! name, then labels, then value; one `# HELP`/`# TYPE` header per metric
//! name; one line per sample with its labels in name order.
//!
//! A sample's value is formatted by the caller (`value_text`); its bit
//! pattern (`value_bits`) orders samples that agree on name and labels,
//! as `f64::total_cmp` does, and its text orders those that agree on the
//! value too (equal values are written alike, so this changes no output
//! for samples made from `f64` values).

use vstd::prelude::*;

use crate::metrics::{escape_with, LabelSet, MetricKind};
use crate::text::{chars_eq, chars_lt, chars_of, concat, first_match, seq_lt, string_of};

verus! {

/// A sample ready to be written out.
pub struct EncodedSample {
    pub name: String,
    pub help: String,
    pub kind: MetricKind,
    pub labels: LabelSet,
    pub value_bits: u64,
    pub value_text: String,
}

// ---------------------------------------------------------------------------
// Labels in name order
// ---------------------------------------------------------------------------

pub open spec fn pair_view(e: (String, String)) -> (Seq<char>, Seq<char>) {
    (e.0@, e.1@)
}

pub open spec fn chars_pair_view(e: (Vec<char>, Vec<char>)) -> (Seq<char>, Seq<char>) {
    (e.0@, e.1@)
}

/// Where a pair goes among pairs in name order: after every pair whose
/// name is not greater.
pub open spec fn pair_insert_pos(s: Seq<(Seq<char>, Seq<char>)>, p: (Seq<char>, Seq<char>)) -> int {
    match first_match(s.len() as int, |j: int| seq_lt(p.0, s[j].0)) {
        Some(j) => j,
        None => s.len() as int,
    }
}

/// Pairs put in name order, one at a time.
pub open spec fn sorted_pairs(s: Seq<(Seq<char>, Seq<char>)>) -> Seq<(Seq<char>, Seq<char>)>
    decreases s.len(),
{
    if s.len() == 0 {
        s
    } else {
        let r = sorted_pairs(s.drop_last());
        r.insert(pair_insert_pos(r, s.last()), s.last())
    }
}

/// The labels of a set in name order (the order a `BTreeMap` walks them).
pub open spec fn label_pairs(l: LabelSet) -> Seq<(Seq<char>, Seq<char>)> {
    sorted_pairs(l.entries@.map_values(|e: (String, String)| pair_view(e)))
}

fn sorted_label_pairs(l: &LabelSet) -> (r: Vec<(Vec<char>, Vec<char>)>)
    ensures
        r@.map_values(|p: (Vec<char>, Vec<char>)| chars_pair_view(p)) == label_pairs(*l),
{
    let ghost src = l.entries@.map_values(|e: (String, String)| pair_view(e));
    let mut out: Vec<(Vec<char>, Vec<char>)> = Vec::new();
    let mut i: usize = 0;
    assert(src.take(0) =~= Seq::<(Seq<char>, Seq<char>)>::empty());
    assert(out@.map_values(|p: (Vec<char>, Vec<char>)| chars_pair_view(p)) =~= sorted_pairs(src.take(0)));
    while i < l.entries.len()
        invariant
            0 <= i <= l.entries@.len(),
            src == l.entries@.map_values(|e: (String, String)| pair_view(e)),
            out@.map_values(|p: (Vec<char>, Vec<char>)| chars_pair_view(p)) == sorted_pairs(
                src.take(i as int),
            ),
        decreases l.entries.len() - i,
    {
        let k = chars_of(l.entries[i].0.as_str());
        let v = chars_of(l.entries[i].1.as_str());
        let ghost before = out@.map_values(|p: (Vec<char>, Vec<char>)| chars_pair_view(p));
        let ghost f = |j: int| seq_lt(k@, before[j].0);
        let mut p: usize = 0;
        while p < out.len() && !chars_lt(&k, &out[p].0)
            invariant
                0 <= p <= out@.len(),
                before == out@.map_values(|q: (Vec<char>, Vec<char>)| chars_pair_view(q)),
                f == (|j: int| seq_lt(k@, before[j].0)),
                forall|j: int| 0 <= j < p ==> !#[trigger] f(j),
            decreases out.len() - p,
        {
            assert(before[p as int] == chars_pair_view(out@[p as int]));
            p += 1;
        }
        proof {
            if p < out.len() {
                assert(before[p as int] == chars_pair_view(out@[p as int]));
            }
            crate::text::lemma_first_match_from(0, before.len() as int, f, p as int);
            assert(src.take(i + 1).drop_last() =~= src.take(i as int));
            assert(src.take(i + 1).last() == (k@, v@));
        }
        out.insert(p, (k, v));
        proof {
            assert(out@.map_values(|q: (Vec<char>, Vec<char>)| chars_pair_view(q)) =~= before.insert(
                p as int,
                (k@, v@),
            ));
        }
        i += 1;
    }
    assert(src.take(l.entries@.len() as int) =~= src);
    out
}

// ---------------------------------------------------------------------------
// Text of one sample
// ---------------------------------------------------------------------------

/// `name="escaped value"`.
pub open spec fn pair_text(p: (Seq<char>, Seq<char>)) -> Seq<char> {
    p.0 + "=\""@ + escape_with(p.1, true) + "\""@
}

/// The pairs' texts joined with commas.
pub open spec fn pairs_text(ps: Seq<(Seq<char>, Seq<char>)>) -> Seq<char>
    decreases ps.len(),
{
    if ps.len() == 0 {
        seq![]
    } else if ps.len() == 1 {
        pair_text(ps[0])
    } else {
        pairs_text(ps.drop_last()) + ","@ + pair_text(ps.last())
    }
}

/// A sample's line: its name, its labels in braces when it has any, a
/// space, its value and a line end.
pub open spec fn sample_line(name: Seq<char>, pairs: Seq<(Seq<char>, Seq<char>)>, value_text: Seq<char>) -> Seq<char> {
    name + (if pairs.len() == 0 {
        seq![]
    } else {
        "{"@ + pairs_text(pairs) + "}"@
    }) + " "@ + value_text + "\n"@
}

/// The `# HELP` and `# TYPE` lines of a metric.
pub open spec fn header_text(name: Seq<char>, help: Seq<char>, kind: MetricKind) -> Seq<char> {
    "# HELP "@ + name + " "@ + escape_with(help, false) + "\n"@ + "# TYPE "@ + name + " "@
        + kind.text() + "\n"@
}

fn pair_text_exec(p: &(Vec<char>, Vec<char>)) -> (r: Vec<char>)
    ensures
        r@ == pair_text(chars_pair_view(*p)),
{
    let a = concat(&p.0, &chars_of("=\""));
    let esc = chars_of(crate::metrics::escape_label_value(string_of(&p.1).as_str()).as_str());
    let b = concat(&a, &esc);
    concat(&b, &chars_of("\""))
}

fn pairs_text_exec(ps: &Vec<(Vec<char>, Vec<char>)>) -> (r: Vec<char>)
    ensures
        r@ == pairs_text(ps@.map_values(|p: (Vec<char>, Vec<char>)| chars_pair_view(p))),
{
    let ghost v = ps@.map_values(|p: (Vec<char>, Vec<char>)| chars_pair_view(p));
    let mut out: Vec<char> = Vec::new();
    let mut i: usize = 0;
    assert(v.take(0) =~= Seq::<(Seq<char>, Seq<char>)>::empty());
    while i < ps.len()
        invariant
            0 <= i <= ps@.len(),
            v == ps@.map_values(|p: (Vec<char>, Vec<char>)| chars_pair_view(p)),
            out@ == pairs_text(v.take(i as int)),
        decreases ps.len() - i,
    {
        let t = pair_text_exec(&ps[i]);
        assert(v.take(i + 1).drop_last() =~= v.take(i as int));
        assert(v.take(i + 1).last() == chars_pair_view(ps@[i as int]));
        if i == 0 {
            assert(v.take(1)[0] == v.take(1).last());
            out = t;
        } else {
            let with_comma = concat(&out, &chars_of(","));
            out = concat(&with_comma, &t);
        }
        i += 1;
    }
    assert(v.take(ps@.len() as int) =~= v);
    out
}

fn sample_line_exec(name: &Vec<char>, pairs: &Vec<(Vec<char>, Vec<char>)>, value_text: &str) -> (r: Vec<char>)
    ensures
        r@ == sample_line(
            name@,
            pairs@.map_values(|p: (Vec<char>, Vec<char>)| chars_pair_view(p)),
            value_text@,
        ),
{
    let mut out = concat(name, &Vec::new());
    assert(out@ =~= name@);
    if pairs.len() > 0 {
        let open = concat(&out, &chars_of("{"));
        let body = concat(&open, &pairs_text_exec(pairs));
        out = concat(&body, &chars_of("}"));
    }
    let spaced = concat(&out, &chars_of(" "));
    let valued = concat(&spaced, &chars_of(value_text));
    let r = concat(&valued, &chars_of("\n"));
    proof {
        let pv = pairs@.map_values(|p: (Vec<char>, Vec<char>)| chars_pair_view(p));
        if pairs.len() > 0 {
            assert(r@ =~= sample_line(name@, pv, value_text@));
        } else {
            assert(pv.len() == 0);
            assert(r@ =~= sample_line(name@, pv, value_text@));
        }
    }
    r
}

fn header_exec(name: &Vec<char>, help: &str, kind: MetricKind) -> (r: Vec<char>)
    ensures
        r@ == header_text(name@, help@, kind),
{
    let a = concat(&chars_of("# HELP "), name);
    let b = concat(&a, &chars_of(" "));
    let c = concat(&b, &chars_of(crate::metrics::escape_help(help).as_str()));
    let d = concat(&c, &chars_of("\n"));
    let e = concat(&d, &chars_of("# TYPE "));
    let f = concat(&e, name);
    let g = concat(&f, &chars_of(" "));
    let h = concat(&g, &chars_of(kind.as_str()));
    let r = concat(&h, &chars_of("\n"));
    assert(r@ =~= header_text(name@, help@, kind));
    r
}

// ---------------------------------------------------------------------------
// Order of samples
// ---------------------------------------------------------------------------

/// The position of a value's bits in the total order of `f64`
/// (`total_cmp`): negative values below positive ones, each in order.
pub open spec fn total_key(bits: u64) -> u64 {
    if bits >= 0x8000_0000_0000_0000u64 {
        (0xffff_ffff_ffff_ffffu64 - bits) as u64
    } else {
        (bits + 0x8000_0000_0000_0000u64) as u64
    }
}

fn total_key_exec(bits: u64) -> (r: u64)
    ensures
        r == total_key(bits),
{
    if bits >= 0x8000_0000_0000_0000u64 {
        0xffff_ffff_ffff_ffffu64 - bits
    } else {
        bits + 0x8000_0000_0000_0000u64
    }
}

/// Pairs compared by name, then by value.
pub open spec fn pair_lt(p: (Seq<char>, Seq<char>), q: (Seq<char>, Seq<char>)) -> bool {
    seq_lt(p.0, q.0) || (p.0 == q.0 && seq_lt(p.1, q.1))
}

/// Lists of pairs compared lexicographically (a proper prefix first).
pub open spec fn pairs_lt(x: Seq<(Seq<char>, Seq<char>)>, y: Seq<(Seq<char>, Seq<char>)>) -> bool
    decreases x.len(),
{
    if x.len() == 0 {
        y.len() > 0
    } else if y.len() == 0 {
        false
    } else if x[0] != y[0] {
        pair_lt(x[0], y[0])
    } else {
        pairs_lt(x.drop_first(), y.drop_first())
    }
}

/// What samples are ordered by: name, labels in name order, value, value
/// text.
pub open spec fn sample_key(s: EncodedSample) -> (Seq<char>, Seq<(Seq<char>, Seq<char>)>, u64, Seq<char>) {
    (s.name@, label_pairs(s.labels), total_key(s.value_bits), s.value_text@)
}

pub open spec fn key_lt(
    a: (Seq<char>, Seq<(Seq<char>, Seq<char>)>, u64, Seq<char>),
    b: (Seq<char>, Seq<(Seq<char>, Seq<char>)>, u64, Seq<char>),
) -> bool {
    seq_lt(a.0, b.0) || (a.0 == b.0 && (pairs_lt(a.1, b.1) || (a.1 == b.1 && (a.2 < b.2 || (a.2
        == b.2 && seq_lt(a.3, b.3))))))
}

/// Where a sample goes among ordered samples: after every sample whose key
/// is not greater (samples that compare equal keep their order).
pub open spec fn sample_insert_pos(s: Seq<EncodedSample>, x: EncodedSample) -> int {
    match first_match(s.len() as int, |j: int| key_lt(sample_key(x), sample_key(s[j]))) {
        Some(j) => j,
        None => s.len() as int,
    }
}

/// The samples in key order, a stable sort.
pub open spec fn sorted_samples(s: Seq<EncodedSample>) -> Seq<EncodedSample>
    decreases s.len(),
{
    if s.len() == 0 {
        s
    } else {
        let r = sorted_samples(s.drop_last());
        r.insert(sample_insert_pos(r, s.last()), s.last())
    }
}

fn pairs_eq_exec(x: &Vec<(Vec<char>, Vec<char>)>, y: &Vec<(Vec<char>, Vec<char>)>) -> (r: bool)
    ensures
        r == (x@.map_values(|p: (Vec<char>, Vec<char>)| chars_pair_view(p)) == y@.map_values(
            |p: (Vec<char>, Vec<char>)| chars_pair_view(p),
        )),
{
    let ghost xv = x@.map_values(|p: (Vec<char>, Vec<char>)| chars_pair_view(p));
    let ghost yv = y@.map_values(|p: (Vec<char>, Vec<char>)| chars_pair_view(p));
    if x.len() != y.len() {
        assert(xv.len() != yv.len());
        return false;
    }
    let mut i: usize = 0;
    while i < x.len()
        invariant
            0 <= i <= x@.len() == y@.len(),
            xv == x@.map_values(|p: (Vec<char>, Vec<char>)| chars_pair_view(p)),
            yv == y@.map_values(|p: (Vec<char>, Vec<char>)| chars_pair_view(p)),
            forall|k: int| 0 <= k < i ==> xv[k] == yv[k],
        decreases x.len() - i,
    {
        if !chars_eq(&x[i].0, &y[i].0) || !chars_eq(&x[i].1, &y[i].1) {
            assert(xv[i as int] != yv[i as int]);
            return false;
        }
        i += 1;
    }
    assert(xv =~= yv);
    true
}

fn pairs_lt_exec(x: &Vec<(Vec<char>, Vec<char>)>, y: &Vec<(Vec<char>, Vec<char>)>) -> (r: bool)
    ensures
        r == pairs_lt(
            x@.map_values(|p: (Vec<char>, Vec<char>)| chars_pair_view(p)),
            y@.map_values(|p: (Vec<char>, Vec<char>)| chars_pair_view(p)),
        ),
{
    let ghost xv = x@.map_values(|p: (Vec<char>, Vec<char>)| chars_pair_view(p));
    let ghost yv = y@.map_values(|p: (Vec<char>, Vec<char>)| chars_pair_view(p));
    let mut i: usize = 0;
    assert(xv.skip(0) =~= xv);
    assert(yv.skip(0) =~= yv);
    while i < x.len() && i < y.len() && chars_eq(&x[i].0, &y[i].0) && chars_eq(&x[i].1, &y[i].1)
        invariant
            0 <= i <= x@.len(),
            i <= y@.len(),
            xv == x@.map_values(|p: (Vec<char>, Vec<char>)| chars_pair_view(p)),
            yv == y@.map_values(|p: (Vec<char>, Vec<char>)| chars_pair_view(p)),
            pairs_lt(xv, yv) == pairs_lt(xv.skip(i as int), yv.skip(i as int)),
        decreases x.len() - i,
    {
        assert(xv.skip(i as int)[0] == xv[i as int]);
        assert(yv.skip(i as int)[0] == yv[i as int]);
        assert(xv.skip(i as int).drop_first() =~= xv.skip(i + 1));
        assert(yv.skip(i as int).drop_first() =~= yv.skip(i + 1));
        i += 1;
    }
    if i == x.len() {
        i < y.len()
    } else if i == y.len() {
        false
    } else {
        assert(xv.skip(i as int)[0] == xv[i as int]);
        assert(yv.skip(i as int)[0] == yv[i as int]);
        chars_lt(&x[i].0, &y[i].0) || (chars_eq(&x[i].0, &y[i].0) && chars_lt(&x[i].1, &y[i].1))
    }
}

/// The key of a sample, computed once.
struct SampleKey {
    name: Vec<char>,
    pairs: Vec<(Vec<char>, Vec<char>)>,
    order: u64,
    text: Vec<char>,
}

spec fn key_view(k: SampleKey) -> (Seq<char>, Seq<(Seq<char>, Seq<char>)>, u64, Seq<char>) {
    (k.name@, k.pairs@.map_values(|p: (Vec<char>, Vec<char>)| chars_pair_view(p)), k.order, k.text@)
}

fn key_lt_exec(a: &SampleKey, b: &SampleKey) -> (r: bool)
    ensures
        r == key_lt(key_view(*a), key_view(*b)),
{
    if chars_lt(&a.name, &b.name) {
        true
    } else if !chars_eq(&a.name, &b.name) {
        false
    } else if pairs_lt_exec(&a.pairs, &b.pairs) {
        true
    } else if !pairs_eq_exec(&a.pairs, &b.pairs) {
        false
    } else if a.order != b.order {
        a.order < b.order
    } else {
        chars_lt(&a.text, &b.text)
    }
}

// ---------------------------------------------------------------------------
// The whole text
// ---------------------------------------------------------------------------

/// Whether a sample of the sequence has the name.
pub open spec fn name_seen(s: Seq<EncodedSample>, n: Seq<char>) -> bool {
    exists|i: int| 0 <= i < s.len() && (#[trigger] s[i]).name@ == n
}

/// The text of samples in the given order: each sample's line, preceded by
/// its metric's header at the first sample of that name.
pub open spec fn encode_in_order(s: Seq<EncodedSample>) -> Seq<char>
    decreases s.len(),
{
    if s.len() == 0 {
        seq![]
    } else {
        let prev = s.drop_last();
        let x = s.last();
        encode_in_order(prev) + (if name_seen(prev, x.name@) {
            seq![]
        } else {
            header_text(x.name@, x.help@, x.kind)
        }) + sample_line(x.name@, label_pairs(x.labels), x.value_text@)
    }
}

/// The text of a set of samples: in key order.
pub open spec fn encode_spec(samples: Seq<EncodedSample>) -> Seq<char> {
    encode_in_order(sorted_samples(samples))
}

/// Writes the samples out in the Prometheus text format.
pub fn encode(samples: &[EncodedSample]) -> (r: String)
    ensures
        r@ == encode_spec(samples@),
{
    let n = samples.len();
    let mut keys: Vec<SampleKey> = Vec::new();
    let mut i: usize = 0;
    while i < n
        invariant
            0 <= i <= n == samples@.len(),
            keys@.len() == i,
            forall|k: int| 0 <= k < i ==> key_view(#[trigger] keys@[k]) == sample_key(samples@[k]),
        decreases n - i,
    {
        let key = SampleKey {
            name: chars_of(samples[i].name.as_str()),
            pairs: sorted_label_pairs(&samples[i].labels),
            order: total_key_exec(samples[i].value_bits),
            text: chars_of(samples[i].value_text.as_str()),
        };
        keys.push(key);
        i += 1;
    }
    // the order of the samples, as positions
    let mut order: Vec<usize> = Vec::new();
    let mut i: usize = 0;
    assert(samples@.take(0) =~= Seq::<EncodedSample>::empty());
    assert(order@.map_values(|j: usize| samples@[j as int]) =~= sorted_samples(samples@.take(0)));
    while i < n
        invariant
            0 <= i <= n == samples@.len() == keys@.len(),
            forall|k: int| 0 <= k < n ==> key_view(#[trigger] keys@[k]) == sample_key(samples@[k]),
            order@.len() == i,
            forall|k: int| 0 <= k < order@.len() ==> (#[trigger] order@[k]) < n,
            order@.map_values(|j: usize| samples@[j as int]) == sorted_samples(samples@.take(i as int)),
        decreases n - i,
    {
        let ghost before = order@.map_values(|j: usize| samples@[j as int]);
        let ghost x = samples@[i as int];
        let ghost f = |j: int| key_lt(sample_key(x), sample_key(before[j]));
        let mut p: usize = 0;
        while p < order.len() && !key_lt_exec(&keys[i], &keys[order[p]])
            invariant
                0 <= p <= order@.len(),
                i < n == samples@.len() == keys@.len(),
                forall|k: int| 0 <= k < n ==> key_view(#[trigger] keys@[k]) == sample_key(samples@[k]),
                forall|k: int| 0 <= k < order@.len() ==> (#[trigger] order@[k]) < n,
                before == order@.map_values(|j: usize| samples@[j as int]),
                x == samples@[i as int],
                f == (|j: int| key_lt(sample_key(x), sample_key(before[j]))),
                forall|j: int| 0 <= j < p ==> !#[trigger] f(j),
            decreases order.len() - p,
        {
            assert(before[p as int] == samples@[order@[p as int] as int]);
            p += 1;
        }
        proof {
            if p < order.len() {
                assert(before[p as int] == samples@[order@[p as int] as int]);
            }
            crate::text::lemma_first_match_from(0, before.len() as int, f, p as int);
            assert(samples@.take(i + 1).drop_last() =~= samples@.take(i as int));
            assert(samples@.take(i + 1).last() == x);
        }
        order.insert(p, i);
        proof {
            assert(order@.map_values(|j: usize| samples@[j as int]) =~= before.insert(p as int, x));
        }
        i += 1;
    }
    assert(samples@.take(n as int) =~= samples@);
    let ghost sorted = order@.map_values(|j: usize| samples@[j as int]);
    // the text
    let mut out: Vec<char> = Vec::new();
    let mut k: usize = 0;
    assert(sorted.take(0) =~= Seq::<EncodedSample>::empty());
    while k < n
        invariant
            0 <= k <= n == samples@.len() == keys@.len() == order@.len(),
            forall|m: int| 0 <= m < n ==> key_view(#[trigger] keys@[m]) == sample_key(samples@[m]),
            forall|m: int| 0 <= m < order@.len() ==> (#[trigger] order@[m]) < n,
            sorted == order@.map_values(|j: usize| samples@[j as int]),
            out@ == encode_in_order(sorted.take(k as int)),
        decreases n - k,
    {
        let idx = order[k];
        let ghost prev = sorted.take(k as int);
        assert(sorted.take(k + 1).drop_last() =~= prev);
        assert(sorted.take(k + 1).last() == samples@[idx as int]);
        // was the name seen before?
        let mut seen = false;
        let mut j: usize = 0;
        while j < k
            invariant
                0 <= j <= k < n == samples@.len() == keys@.len() == order@.len(),
                forall|m: int| 0 <= m < n ==> key_view(#[trigger] keys@[m]) == sample_key(samples@[m]),
                forall|m: int| 0 <= m < order@.len() ==> (#[trigger] order@[m]) < n,
                sorted == order@.map_values(|j: usize| samples@[j as int]),
                prev == sorted.take(k as int),
                idx == order@[k as int],
                seen == exists|m: int| 0 <= m < j && (#[trigger] prev[m]).name@ == samples@[idx as int].name@,
            decreases k - j,
        {
            assert(prev[j as int] == samples@[order@[j as int] as int]);
            assert(keys@[order@[j as int] as int].name@ == samples@[order@[j as int] as int].name@);
            assert(keys@[idx as int].name@ == samples@[idx as int].name@);
            if chars_eq(&keys[order[j]].name, &keys[idx].name) {
                seen = true;
            }
            j += 1;
        }
        assert(seen == name_seen(prev, samples@[idx as int].name@));
        if !seen {
            let h = header_exec(&keys[idx].name, samples[idx].help.as_str(), samples[idx].kind);
            out = concat(&out, &h);
        }
        let line = sample_line_exec(&keys[idx].name, &keys[idx].pairs, samples[idx].value_text.as_str());
        out = concat(&out, &line);
        k += 1;
    }
    assert(sorted.take(n as int) =~= sorted);
    string_of(&out)
}


// ---------------------------------------------------------------------------
// The order is a strict total order, and the text does not depend on the
// order the samples came in
// ---------------------------------------------------------------------------

pub proof fn lemma_seq_lt_total(a: Seq<char>, b: Seq<char>)
    ensures
        a == b || seq_lt(a, b) || seq_lt(b, a),
    decreases a.len(),
{
    if a.len() == 0 {
        if b.len() == 0 {
            assert(a =~= b);
        }
    } else if b.len() == 0 {
    } else if a[0] != b[0] {
        let (c, d) = (a[0], b[0]);
        vstd::utf8::char_u32_cast(c, c as u32);
        vstd::utf8::char_u32_cast(d, d as u32);
        assert(c as u32 != d as u32);
    } else {
        let (ta, tb) = (a.drop_first(), b.drop_first());
        lemma_seq_lt_total(ta, tb);
        if ta == tb {
            assert(a.len() == b.len());
            assert forall|i: int| 0 <= i < a.len() implies a[i] == b[i] by {
                if i > 0 {
                    assert(a[i] == ta[i - 1]);
                    assert(b[i] == tb[i - 1]);
                }
            }
            assert(a =~= b);
        }
    }
}

proof fn lemma_seq_lt_asym(a: Seq<char>, b: Seq<char>)
    ensures
        !(seq_lt(a, b) && seq_lt(b, a)),
{
    if seq_lt(a, b) && seq_lt(b, a) {
        crate::text::lemma_seq_lt_transitive(a, b, a);
        crate::text::lemma_seq_lt_irreflexive(a);
    }
}

proof fn lemma_pair_lt_props(p: (Seq<char>, Seq<char>), q: (Seq<char>, Seq<char>), r: (Seq<char>, Seq<char>))
    ensures
        !pair_lt(p, p),
        pair_lt(p, q) && pair_lt(q, r) ==> pair_lt(p, r),
        p == q || pair_lt(p, q) || pair_lt(q, p),
{
    crate::text::lemma_seq_lt_irreflexive(p.0);
    crate::text::lemma_seq_lt_irreflexive(p.1);
    if seq_lt(p.0, q.0) && seq_lt(q.0, r.0) {
        crate::text::lemma_seq_lt_transitive(p.0, q.0, r.0);
    }
    if seq_lt(p.1, q.1) && seq_lt(q.1, r.1) {
        crate::text::lemma_seq_lt_transitive(p.1, q.1, r.1);
    }
    lemma_seq_lt_total(p.0, q.0);
    lemma_seq_lt_total(p.1, q.1);
}

proof fn lemma_pairs_lt_irreflexive(x: Seq<(Seq<char>, Seq<char>)>)
    ensures
        !pairs_lt(x, x),
    decreases x.len(),
{
    if x.len() > 0 {
        lemma_pairs_lt_irreflexive(x.drop_first());
    }
}

proof fn lemma_pairs_lt_transitive(
    x: Seq<(Seq<char>, Seq<char>)>,
    y: Seq<(Seq<char>, Seq<char>)>,
    z: Seq<(Seq<char>, Seq<char>)>,
)
    requires
        pairs_lt(x, y),
        pairs_lt(y, z),
    ensures
        pairs_lt(x, z),
    decreases x.len(),
{
    if x.len() > 0 {
        lemma_pair_lt_props(x[0], y[0], z[0]);
        lemma_pair_lt_props(y[0], x[0], z[0]);
        lemma_pair_lt_props(z[0], x[0], y[0]);
        if x[0] == y[0] && y[0] == z[0] {
            lemma_pairs_lt_transitive(x.drop_first(), y.drop_first(), z.drop_first());
        }
    }
}

proof fn lemma_pairs_lt_total(x: Seq<(Seq<char>, Seq<char>)>, y: Seq<(Seq<char>, Seq<char>)>)
    ensures
        x == y || pairs_lt(x, y) || pairs_lt(y, x),
    decreases x.len(),
{
    if x.len() == 0 {
        if y.len() == 0 {
            assert(x =~= y);
        }
    } else if y.len() == 0 {
    } else if x[0] != y[0] {
        lemma_pair_lt_props(x[0], y[0], y[0]);
    } else {
        let (tx, ty) = (x.drop_first(), y.drop_first());
        lemma_pairs_lt_total(tx, ty);
        if tx == ty {
            assert(x.len() == y.len());
            assert forall|i: int| 0 <= i < x.len() implies x[i] == y[i] by {
                if i > 0 {
                    assert(x[i] == tx[i - 1]);
                    assert(y[i] == ty[i - 1]);
                }
            }
            assert(x =~= y);
        }
    }
}

/// The order of sample keys is irreflexive, transitive and total.
pub proof fn lemma_key_lt_order(
    a: (Seq<char>, Seq<(Seq<char>, Seq<char>)>, u64, Seq<char>),
    b: (Seq<char>, Seq<(Seq<char>, Seq<char>)>, u64, Seq<char>),
    c: (Seq<char>, Seq<(Seq<char>, Seq<char>)>, u64, Seq<char>),
)
    ensures
        !key_lt(a, a),
        key_lt(a, b) && key_lt(b, c) ==> key_lt(a, c),
        a == b || key_lt(a, b) || key_lt(b, a),
{
    crate::text::lemma_seq_lt_irreflexive(a.0);
    lemma_pairs_lt_irreflexive(a.1);
    lemma_seq_lt_total(a.0, b.0);
    lemma_pairs_lt_total(a.1, b.1);
    lemma_seq_lt_asym(a.0, b.0);
    lemma_seq_lt_asym(b.0, c.0);
    if seq_lt(a.0, b.0) && seq_lt(b.0, c.0) {
        crate::text::lemma_seq_lt_transitive(a.0, b.0, c.0);
    }
    if pairs_lt(a.1, b.1) && pairs_lt(b.1, c.1) {
        lemma_pairs_lt_transitive(a.1, b.1, c.1);
    }
    crate::text::lemma_seq_lt_irreflexive(a.3);
    lemma_seq_lt_total(a.3, b.3);
    lemma_seq_lt_asym(a.3, b.3);
    lemma_seq_lt_asym(b.3, c.3);
    if seq_lt(a.3, b.3) && seq_lt(b.3, c.3) {
        crate::text::lemma_seq_lt_transitive(a.3, b.3, c.3);
    }
}

/// Keys never decrease along the sequence.
pub open spec fn key_sorted(s: Seq<EncodedSample>) -> bool {
    forall|i: int, j: int| 0 <= i < j < s.len() ==> !key_lt(sample_key(#[trigger] s[j]), sample_key(#[trigger] s[i]))
}

proof fn lemma_insert_key_sorted(r: Seq<EncodedSample>, x: EncodedSample)
    requires
        key_sorted(r),
    ensures
        key_sorted(r.insert(sample_insert_pos(r, x), x)),
        0 <= sample_insert_pos(r, x) <= r.len(),
{
    let f = |j: int| key_lt(sample_key(x), sample_key(r[j]));
    let p = sample_insert_pos(r, x);
    crate::text::lemma_first_match_props(r.len() as int, f);
    let t = r.insert(p, x);
    r.insert_ensures(p, x);
    assert forall|i: int, j: int| 0 <= i < j < t.len() implies !key_lt(sample_key(#[trigger] t[j]), sample_key(#[trigger] t[i])) by {
        if j < p {
        } else if j == p {
            assert(!f(i));
        } else {
            assert(t[(j - 1) + 1] == r[j - 1]);
            if i < p {
            } else if i == p {
                assert(f(p));
                lemma_key_lt_order(sample_key(r[j - 1]), sample_key(x), sample_key(r[p]));
                lemma_key_lt_order(sample_key(x), sample_key(r[p]), sample_key(r[p]));
                if j - 1 > p {
                    assert(!key_lt(sample_key(r[j - 1]), sample_key(r[p])));
                }
            } else {
                assert(t[(i - 1) + 1] == r[i - 1]);
            }
        }
    }
}

/// The stable sort orders the samples by key and keeps every sample.
pub proof fn lemma_sorted_samples(s: Seq<EncodedSample>)
    ensures
        key_sorted(sorted_samples(s)),
        sorted_samples(s).to_multiset() == s.to_multiset(),
    decreases s.len(),
{
    broadcast use vstd::seq_lib::to_multiset_insert;
    broadcast use vstd::seq_lib::to_multiset_build;

    if s.len() > 0 {
        lemma_sorted_samples(s.drop_last());
        let r = sorted_samples(s.drop_last());
        lemma_insert_key_sorted(r, s.last());
        assert(s.drop_last().push(s.last()) =~= s);
    }
}

/// Two key-ordered sequences of the same samples are the same sequence,
/// when samples with the same key are the same sample.
proof fn lemma_key_sorted_unique(x: Seq<EncodedSample>, y: Seq<EncodedSample>)
    requires
        key_sorted(x),
        key_sorted(y),
        x.to_multiset() == y.to_multiset(),
        forall|a: EncodedSample, b: EncodedSample|
            x.contains(a) && x.contains(b) && sample_key(a) == sample_key(b) ==> a == b,
    ensures
        x == y,
    decreases x.len(),
{
    broadcast use vstd::seq_lib::group_to_multiset_ensures;
    broadcast use vstd::multiset::group_multiset_axioms;

    if x.len() == 0 {
        assert(y.to_multiset().len() == 0);
        assert(y =~= x);
    } else {
        assert(x.to_multiset().count(x[0]) > 0);
        assert(y.contains(x[0]));
        let i = choose|i: int| 0 <= i < y.len() && y[i] == x[0];
        assert(y.len() > 0);
        assert(y.to_multiset().count(y[0]) > 0);
        assert(x.contains(y[0]));
        let j = choose|j: int| 0 <= j < x.len() && x[j] == y[0];
        let kx = sample_key(x[0]);
        let ky = sample_key(y[0]);
        if i > 0 {
            assert(!key_lt(sample_key(y[i]), sample_key(y[0])));
        }
        if j > 0 {
            assert(!key_lt(sample_key(x[j]), sample_key(x[0])));
        }
        lemma_key_lt_order(kx, ky, kx);
        assert(kx == ky);
        assert(x.contains(x[0]));
        assert(x[0] == y[0]);
        assert(x.remove(0) =~= x.drop_first());
        assert(y.remove(0) =~= y.drop_first());
        assert(x.remove(0).to_multiset() == x.to_multiset().remove(x[0]));
        assert(y.remove(0).to_multiset() == y.to_multiset().remove(y[0]));
        assert forall|a: EncodedSample, b: EncodedSample|
            x.drop_first().contains(a) && x.drop_first().contains(b) && sample_key(a) == sample_key(b) implies a == b by {
            if x.drop_first().contains(a) {
                let ia = choose|ia: int| 0 <= ia < x.drop_first().len() && x.drop_first()[ia] == a;
                assert(x[ia + 1] == a);
            }
            if x.drop_first().contains(b) {
                let ib = choose|ib: int| 0 <= ib < x.drop_first().len() && x.drop_first()[ib] == b;
                assert(x[ib + 1] == b);
            }
        }
        assert forall|p: int, q: int| 0 <= p < q < x.drop_first().len() implies !key_lt(
            sample_key(#[trigger] x.drop_first()[q]),
            sample_key(#[trigger] x.drop_first()[p]),
        ) by {
            assert(x.drop_first()[q] == x[q + 1]);
            assert(x.drop_first()[p] == x[p + 1]);
        }
        assert forall|p: int, q: int| 0 <= p < q < y.drop_first().len() implies !key_lt(
            sample_key(#[trigger] y.drop_first()[q]),
            sample_key(#[trigger] y.drop_first()[p]),
        ) by {
            assert(y.drop_first()[q] == y[q + 1]);
            assert(y.drop_first()[p] == y[p + 1]);
        }
        lemma_key_sorted_unique(x.drop_first(), y.drop_first());
        assert forall|k: int| 0 <= k < x.len() implies x[k] == y[k] by {
            if k > 0 {
                assert(x[k] == x.drop_first()[k - 1]);
                assert(y[k] == y.drop_first()[k - 1]);
            }
        }
        assert(x =~= y);
    }
}

/// The text does not depend on the order the samples are given in: two
/// sequences holding the same samples are written out alike, provided
/// samples that agree on name, labels, value and value text are the same
/// sample.
pub proof fn lemma_encode_order_independent(a: Seq<EncodedSample>, b: Seq<EncodedSample>)
    requires
        a.to_multiset() == b.to_multiset(),
        forall|i: int, j: int|
            0 <= i < a.len() && 0 <= j < a.len() && sample_key(#[trigger] a[i]) == sample_key(#[trigger] a[j])
                ==> a[i] == a[j],
    ensures
        encode_spec(a) == encode_spec(b),
{
    broadcast use vstd::seq_lib::group_to_multiset_ensures;

    lemma_sorted_samples(a);
    lemma_sorted_samples(b);
    let sa = sorted_samples(a);
    let sb = sorted_samples(b);
    assert forall|x: EncodedSample, y: EncodedSample|
        sa.contains(x) && sa.contains(y) && sample_key(x) == sample_key(y) implies x == y by {
        assert(sa.to_multiset().count(x) > 0);
        assert(sa.to_multiset().count(y) > 0);
        assert(a.contains(x));
        assert(a.contains(y));
        let i = choose|i: int| 0 <= i < a.len() && a[i] == x;
        let j = choose|j: int| 0 <= j < a.len() && a[j] == y;
        assert(sample_key(a[i]) == sample_key(a[j]));
    }
    lemma_key_sorted_unique(sa, sb);
}

/// What the text of a sample depends on: its key, help, kind and value
/// text.
pub open spec fn text_view(s: EncodedSample) -> (
    (Seq<char>, Seq<(Seq<char>, Seq<char>)>, u64, Seq<char>),
    Seq<char>,
    MetricKind,
    Seq<char>,
) {
    (sample_key(s), s.help@, s.kind, s.value_text@)
}

pub open spec fn text_views(s: Seq<EncodedSample>) -> Seq<
    ((Seq<char>, Seq<(Seq<char>, Seq<char>)>, u64, Seq<char>), Seq<char>, MetricKind, Seq<char>),
> {
    s.map_values(|x: EncodedSample| text_view(x))
}

/// Samples alike give views alike.
proof fn lemma_text_views_multiset(a: Seq<EncodedSample>, b: Seq<EncodedSample>)
    requires
        a.to_multiset() == b.to_multiset(),
    ensures
        text_views(a).to_multiset() == text_views(b).to_multiset(),
    decreases a.len(),
{
    broadcast use vstd::seq_lib::group_to_multiset_ensures;
    broadcast use vstd::multiset::group_multiset_axioms;

    if a.len() == 0 {
        assert(b.to_multiset().len() == 0);
        assert(b.len() == 0);
        assert(text_views(a) =~= text_views(b));
    } else {
        let x = a.last();
        assert(a.to_multiset().count(x) > 0);
        assert(b.contains(x));
        let i = choose|i: int| 0 <= i < b.len() && b[i] == x;
        let a2 = a.drop_last();
        let b2 = b.remove(i);
        assert(a2.push(x) =~= a);
        assert(a2.to_multiset() =~= a.to_multiset().remove(x)) by {
            assert(a.remove(a.len() - 1) =~= a2);
        }
        assert(b2.to_multiset() == b.to_multiset().remove(x));
        lemma_text_views_multiset(a2, b2);
        assert(text_views(a) =~= text_views(a2).push(text_view(x)));
        assert(text_views(b) =~= text_views(b2).insert(i, text_view(x)));
        assert(text_views(a2).push(text_view(x)) =~= text_views(a2).insert(
            text_views(a2).len() as int,
            text_view(x),
        ));
    }
}

/// Key-ordered views of the same samples are the same, when views with the
/// same key are the same view.
proof fn lemma_views_sorted_unique(
    x: Seq<((Seq<char>, Seq<(Seq<char>, Seq<char>)>, u64, Seq<char>), Seq<char>, MetricKind, Seq<char>)>,
    y: Seq<((Seq<char>, Seq<(Seq<char>, Seq<char>)>, u64, Seq<char>), Seq<char>, MetricKind, Seq<char>)>,
)
    requires
        forall|i: int, j: int| 0 <= i < j < x.len() ==> !key_lt(#[trigger] x[j].0, #[trigger] x[i].0),
        forall|i: int, j: int| 0 <= i < j < y.len() ==> !key_lt(#[trigger] y[j].0, #[trigger] y[i].0),
        x.to_multiset() == y.to_multiset(),
        forall|i: int, j: int| 0 <= i < x.len() && 0 <= j < x.len() && (#[trigger] x[i]).0 == (#[trigger] x[j]).0 ==> x[i] == x[j],
    ensures
        x == y,
    decreases x.len(),
{
    broadcast use vstd::seq_lib::group_to_multiset_ensures;
    broadcast use vstd::multiset::group_multiset_axioms;

    if x.len() == 0 {
        assert(y.to_multiset().len() == 0);
        assert(y =~= x);
    } else {
        assert(x.to_multiset().count(x[0]) > 0);
        assert(y.contains(x[0]));
        let i = choose|i: int| 0 <= i < y.len() && y[i] == x[0];
        assert(y.to_multiset().count(y[0]) > 0);
        assert(x.contains(y[0]));
        let j = choose|j: int| 0 <= j < x.len() && x[j] == y[0];
        if i > 0 {
            assert(!key_lt(y[i].0, y[0].0));
        }
        if j > 0 {
            assert(!key_lt(x[j].0, x[0].0));
        }
        lemma_key_lt_order(x[0].0, y[0].0, x[0].0);
        assert(x[0].0 == y[0].0);
        assert(x[0] == x[j]);
        assert(x[0] == y[0]);
        let x2 = x.drop_first();
        let y2 = y.drop_first();
        assert(x.remove(0) =~= x2);
        assert(y.remove(0) =~= y2);
        assert(x2.to_multiset() == x.to_multiset().remove(x[0]));
        assert(y2.to_multiset() == y.to_multiset().remove(y[0]));
        assert forall|p: int, q: int| 0 <= p < q < x2.len() implies !key_lt(#[trigger] x2[q].0, #[trigger] x2[p].0) by {
            assert(x2[q] == x[q + 1]);
            assert(x2[p] == x[p + 1]);
        }
        assert forall|p: int, q: int| 0 <= p < q < y2.len() implies !key_lt(#[trigger] y2[q].0, #[trigger] y2[p].0) by {
            assert(y2[q] == y[q + 1]);
            assert(y2[p] == y[p + 1]);
        }
        assert forall|p: int, q: int| 0 <= p < x2.len() && 0 <= q < x2.len() && (#[trigger] x2[p]).0 == (#[trigger] x2[q]).0 implies x2[p] == x2[q] by {
            assert(x2[p] == x[p + 1]);
            assert(x2[q] == x[q + 1]);
        }
        lemma_views_sorted_unique(x2, y2);
        assert forall|k: int| 0 <= k < x.len() implies x[k] == y[k] by {
            if k > 0 {
                assert(x[k] == x2[k - 1]);
                assert(y[k] == y2[k - 1]);
            }
        }
        assert(x =~= y);
    }
}

/// The text of samples in order depends on their views alone.
proof fn lemma_encode_by_views(s: Seq<EncodedSample>, t: Seq<EncodedSample>)
    requires
        text_views(s) == text_views(t),
    ensures
        encode_in_order(s) == encode_in_order(t),
    decreases s.len(),
{
    assert(s.len() == text_views(s).len());
    assert(t.len() == text_views(t).len());
    if s.len() > 0 {
        let ps = s.drop_last();
        let pt = t.drop_last();
        assert forall|k: int| 0 <= k < ps.len() implies text_views(ps)[k] == text_views(pt)[k] by {
            assert(text_views(s)[k] == text_views(t)[k]);
        }
        assert(text_views(ps) =~= text_views(pt));
        lemma_encode_by_views(ps, pt);
        assert(text_views(s)[s.len() - 1] == text_views(t)[t.len() - 1]);
        let n = s.last().name@;
        assert(t.last().name@ == n);
        if name_seen(ps, n) {
            let i = choose|i: int| 0 <= i < ps.len() && (#[trigger] ps[i]).name@ == n;
            assert(text_views(s)[i] == text_views(t)[i]);
            assert(pt[i].name@ == n);
        }
        if name_seen(pt, n) {
            let i = choose|i: int| 0 <= i < pt.len() && (#[trigger] pt[i]).name@ == n;
            assert(text_views(s)[i] == text_views(t)[i]);
            assert(ps[i].name@ == n);
        }
    }
}

/// The text does not depend on the order the samples are given in, provided
/// samples of one name share their help and kind.
pub proof fn lemma_encode_order_independent_by_name(a: Seq<EncodedSample>, b: Seq<EncodedSample>)
    requires
        a.to_multiset() == b.to_multiset(),
        forall|i: int, j: int|
            0 <= i < a.len() && 0 <= j < a.len() && (#[trigger] a[i]).name@ == (#[trigger] a[j]).name@
                ==> a[i].help@ == a[j].help@ && a[i].kind == a[j].kind,
    ensures
        encode_spec(a) == encode_spec(b),
{
    broadcast use vstd::seq_lib::group_to_multiset_ensures;

    lemma_sorted_samples(a);
    lemma_sorted_samples(b);
    let sa = sorted_samples(a);
    let sb = sorted_samples(b);
    lemma_text_views_multiset(sa, sb);
    let va = text_views(sa);
    let vb = text_views(sb);
    assert forall|i: int, j: int| 0 <= i < j < va.len() implies !key_lt(#[trigger] va[j].0, #[trigger] va[i].0) by {
        assert(!key_lt(sample_key(sa[j]), sample_key(sa[i])));
    }
    assert forall|i: int, j: int| 0 <= i < j < vb.len() implies !key_lt(#[trigger] vb[j].0, #[trigger] vb[i].0) by {
        assert(!key_lt(sample_key(sb[j]), sample_key(sb[i])));
    }
    assert forall|i: int, j: int| 0 <= i < va.len() && 0 <= j < va.len() && (#[trigger] va[i]).0 == (#[trigger] va[j]).0 implies va[i] == va[j] by {
        assert(sa.to_multiset().count(sa[i]) > 0);
        assert(sa.to_multiset().count(sa[j]) > 0);
        assert(a.contains(sa[i]));
        assert(a.contains(sa[j]));
        let p = choose|p: int| 0 <= p < a.len() && a[p] == sa[i];
        let q = choose|q: int| 0 <= q < a.len() && a[q] == sa[j];
        assert(sample_key(a[p]) == sample_key(a[q]));
        assert(a[p].name@ == a[q].name@);
    }
    lemma_views_sorted_unique(va, vb);
    lemma_encode_by_views(sa, sb);
}

} // verus!
