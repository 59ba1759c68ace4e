//! The hardware components temperatures are reported for, and the
//! normalised form of a sensor's label.

use vstd::prelude::*;

use crate::text::{
    chars_of, in_class, is_alnum, is_ws, join, join_chars, leading_run, lemma_leading_run, lower,
    lower_seq, runs, runs_of, starts_with, starts_with_chars, string_of, to_lower_chars, trim,
    trim_chars, trim_end, trim_start, CharClass,
};

verus! {

#[derive(Debug, Clone, Copy, PartialEq, Eq, Structural)]
pub enum Component {
    Cpu,
    Gpu,
    Storage,
    Motherboard,
    Memory,
    Network,
    Cooling,
    System,
    Battery,
    Unknown,
}

impl Component {
    pub open spec fn label_spec(self) -> Seq<char> {
        match self {
            Component::Cpu => "cpu"@,
            Component::Gpu => "gpu"@,
            Component::Storage => "storage"@,
            Component::Motherboard => "motherboard"@,
            Component::Memory => "memory"@,
            Component::Network => "network"@,
            Component::Cooling => "cooling"@,
            Component::System => "system"@,
            Component::Battery => "battery"@,
            Component::Unknown => "unknown"@,
        }
    }

    /// The value of the `component` label.
    pub fn label_value(self) -> (r: &'static str)
        ensures
            r@ == self.label_spec(),
    {
        match self {
            Component::Cpu => "cpu",
            Component::Gpu => "gpu",
            Component::Storage => "storage",
            Component::Motherboard => "motherboard",
            Component::Memory => "memory",
            Component::Network => "network",
            Component::Cooling => "cooling",
            Component::System => "system",
            Component::Battery => "battery",
            Component::Unknown => "unknown",
        }
    }
}

/// A sensor label in normal form: trimmed, lower-cased, its runs of ASCII
/// letters and digits joined by `_`; any label that then starts with
/// `package` is just `package`.
pub open spec fn normalized_label(raw: Seq<char>) -> Seq<char> {
    let n = join(runs(lower_seq(trim(raw)), CharClass::AsciiAlnum), seq!['_']);
    if starts_with(n, "package"@) {
        "package"@
    } else {
        n
    }
}

pub fn normalize_sensor_label_chars(raw: &[char]) -> (r: Vec<char>)
    ensures
        r@ == normalized_label(raw@),
{
    let trimmed = trim_chars(raw);
    let lower = to_lower_chars(&trimmed);
    let parts = runs_of(&lower, CharClass::AsciiAlnum);
    let sep = vec!['_'];
    assert(parts@.map_values(|p: Vec<char>| p@) =~= runs(lower_seq(trim(raw@)), CharClass::AsciiAlnum));
    assert(sep@ =~= seq!['_']);
    let n = join_chars(&parts, &sep);
    let package = chars_of("package");
    if starts_with_chars(&n, &package) {
        package
    } else {
        n
    }
}

pub fn normalize_sensor_label(raw: &str) -> (r: String)
    ensures
        r@ == normalized_label(raw@),
{
    string_of(&normalize_sensor_label_chars(&chars_of(raw)))
}

// ---------------------------------------------------------------------------
// The normal form of a label
// ---------------------------------------------------------------------------

/// A character of a normalised label other than `_`.
pub open spec fn is_label_char(c: char) -> bool {
    ('a' <= c && c <= 'z') || ('0' <= c && c <= '9')
}

/// A label in normal form: lower-case ASCII letters, digits and `_`, with
/// no `_` at either end and never two together.
pub open spec fn clean_label(s: Seq<char>) -> bool {
    &&& forall|i: int| 0 <= i < s.len() ==> is_label_char(#[trigger] s[i]) || s[i] == '_'
    &&& s.len() > 0 ==> s[0] != '_' && s.last() != '_'
    &&& forall|i: int| 0 <= i < s.len() - 1 ==> !(#[trigger] s[i] == '_' && s[i + 1] == '_')
}

pub open spec fn no_upper(s: Seq<char>) -> bool {
    forall|i: int| 0 <= i < s.len() ==> !('A' <= #[trigger] s[i] && s[i] <= 'Z')
}

proof fn lemma_lower_no_upper(s: Seq<char>)
    ensures
        no_upper(lower_seq(s)),
{
    assert forall|i: int| 0 <= i < lower_seq(s).len() implies !('A' <= #[trigger] lower_seq(s)[i]
        && lower_seq(s)[i] <= 'Z') by {
        let c = s[i];
        if 'A' <= c && c <= 'Z' {
            assert(lower(c) == ((c as u32) + 32) as char);
            assert((lower(c) as u32) >= 97);
        }
    }
}

/// Every run of letters and digits of a text without capitals is non-empty
/// and made of label characters.
proof fn lemma_runs_label_chars(s: Seq<char>)
    requires
        no_upper(s),
    ensures
        forall|k: int| 0 <= k < runs(s, CharClass::AsciiAlnum).len() ==> (#[trigger] runs(s, CharClass::AsciiAlnum)[k]).len() > 0
            && forall|i: int| 0 <= i < runs(s, CharClass::AsciiAlnum)[k].len() ==> is_label_char(
                #[trigger] runs(s, CharClass::AsciiAlnum)[k][i],
            ),
    decreases s.len(),
{
    let cls = CharClass::AsciiAlnum;
    if s.len() == 0 {
    } else if !in_class(cls, s[0]) {
        assert(no_upper(s.drop_first())) by {
            assert forall|i: int| 0 <= i < s.drop_first().len() implies !('A' <= #[trigger] s.drop_first()[i]
                && s.drop_first()[i] <= 'Z') by {
                assert(s.drop_first()[i] == s[i + 1]);
            }
        }
        lemma_runs_label_chars(s.drop_first());
        assert(runs(s, cls) == runs(s.drop_first(), cls));
    } else {
        let r = leading_run(s, cls);
        lemma_leading_run(s, cls);
        if r.len() == 0 || r.len() > s.len() {
        } else {
            let rest = s.skip(r.len() as int);
            assert(no_upper(rest)) by {
                assert forall|i: int| 0 <= i < rest.len() implies !('A' <= #[trigger] rest[i] && rest[i] <= 'Z') by {
                    assert(rest[i] == s[i + r.len()]);
                }
            }
            lemma_runs_label_chars(rest);
            let rs = runs(s, cls);
            assert(rs == seq![r] + runs(rest, cls));
            assert forall|k: int| 0 <= k < rs.len() implies (#[trigger] rs[k]).len() > 0 && forall|i: int|
                0 <= i < rs[k].len() ==> is_label_char(#[trigger] rs[k][i]) by {
                if k == 0 {
                    assert forall|i: int| 0 <= i < rs[k].len() implies is_label_char(#[trigger] rs[k][i]) by {
                        assert(r[i] == s[i]);
                        assert(in_class(cls, s[i]));
                        assert(!('A' <= s[i] && s[i] <= 'Z'));
                    }
                } else {
                    assert(rs[k] == runs(rest, cls)[k - 1]);
                }
            }
        }
    }
}

/// Parts joined with `_` form a label in normal form, when each part is a
/// non-empty run of label characters.
proof fn lemma_join_clean(parts: Seq<Seq<char>>)
    requires
        forall|k: int| 0 <= k < parts.len() ==> (#[trigger] parts[k]).len() > 0 && forall|i: int|
            0 <= i < parts[k].len() ==> is_label_char(#[trigger] parts[k][i]),
    ensures
        clean_label(join(parts, seq!['_'])),
        parts.len() > 0 ==> join(parts, seq!['_']).len() > 0,
    decreases parts.len(),
{
    let sep = seq!['_'];
    if parts.len() == 0 {
    } else if parts.len() == 1 {
        let p = parts[0];
        assert(join(parts, sep) == p);
        assert forall|i: int| 0 <= i < p.len() implies is_label_char(#[trigger] p[i]) || p[i] == '_' by {}
        assert(is_label_char(p[0]));
        assert(is_label_char(p[p.len() - 1]));
        assert forall|i: int| 0 <= i < p.len() - 1 implies !(#[trigger] p[i] == '_' && p[i + 1] == '_') by {
            assert(is_label_char(p[i]));
        }
    } else {
        let front = parts.drop_last();
        let l = parts.last();
        assert forall|k: int| 0 <= k < front.len() implies (#[trigger] front[k]).len() > 0 && forall|i: int|
            0 <= i < front[k].len() ==> is_label_char(#[trigger] front[k][i]) by {
            assert(front[k] == parts[k]);
        }
        lemma_join_clean(front);
        let j = join(front, sep);
        let r = join(parts, sep);
        assert(r == j + sep + l);
        assert(is_label_char(l[0]));
        assert(is_label_char(l[l.len() - 1]));
        assert forall|i: int| 0 <= i < r.len() implies is_label_char(#[trigger] r[i]) || r[i] == '_' by {
            if i < j.len() {
                assert(r[i] == j[i]);
            } else if i == j.len() {
            } else {
                assert(r[i] == l[i - j.len() - 1]);
            }
        }
        assert(r[0] == j[0]);
        assert(r.last() == l[l.len() - 1]);
        assert forall|i: int| 0 <= i < r.len() - 1 implies !(#[trigger] r[i] == '_' && r[i + 1] == '_') by {
            if i + 1 < j.len() {
                assert(r[i] == j[i]);
                assert(r[i + 1] == j[i + 1]);
            } else if i + 1 == j.len() {
                assert(r[i] == j[j.len() - 1]);
            } else if i == j.len() {
                assert(r[i + 1] == l[0]);
            } else {
                assert(r[i] == l[i - j.len() - 1]);
                assert(is_label_char(l[i - j.len() - 1]));
            }
        }
    }
}

/// A normalised label holds only lower-case ASCII letters, digits and `_`,
/// never `_` at either end nor two together.
pub proof fn lemma_normalized_label_clean(raw: Seq<char>)
    ensures
        clean_label(normalized_label(raw)),
{
    let lowered = lower_seq(trim(raw));
    lemma_lower_no_upper(trim(raw));
    lemma_runs_label_chars(lowered);
    lemma_join_clean(runs(lowered, CharClass::AsciiAlnum));
    reveal_strlit("package");
    let p = "package"@;
    assert forall|i: int| 0 <= i < p.len() implies is_label_char(#[trigger] p[i]) || p[i] == '_' by {}
    assert forall|i: int| 0 <= i < p.len() - 1 implies !(#[trigger] p[i] == '_' && p[i + 1] == '_') by {}
}

/// Joining with a part in front puts that part and the separator first.
proof fn lemma_join_prepend(r: Seq<char>, ps: Seq<Seq<char>>, sep: Seq<char>)
    requires
        ps.len() > 0,
    ensures
        join(seq![r] + ps, sep) == r + sep + join(ps, sep),
    decreases ps.len(),
{
    let all = seq![r] + ps;
    if ps.len() == 1 {
        assert(all.drop_last() =~= seq![r]);
        assert(join(seq![r], sep) == r);
    } else {
        assert(all.drop_last() =~= seq![r] + ps.drop_last());
        lemma_join_prepend(r, ps.drop_last(), sep);
        assert(join(all, sep) == join(all.drop_last(), sep) + sep + all.last());
        assert(join(ps, sep) == join(ps.drop_last(), sep) + sep + ps.last());
        assert(r + sep + join(ps.drop_last(), sep) + sep + ps.last() =~= r + sep + (join(
            ps.drop_last(),
            sep,
        ) + sep + ps.last()));
    }
}

/// A label in normal form is its own runs joined with `_`.
proof fn lemma_clean_runs_join(s: Seq<char>)
    requires
        clean_label(s),
    ensures
        join(runs(s, CharClass::AsciiAlnum), seq!['_']) == s,
    decreases s.len(),
{
    let cls = CharClass::AsciiAlnum;
    let sep = seq!['_'];
    if s.len() > 0 {
        assert(is_label_char(s[0]));
        let r = leading_run(s, cls);
        lemma_leading_run(s, cls);
        let m = r.len() as int;
        assert(m > 0) by {
            assert(in_class(cls, s[0]));
        }
        let rest = s.skip(m);
        assert(runs(s, cls) == seq![r] + runs(rest, cls));
        if m == s.len() {
            assert(rest.len() == 0);
            assert(seq![r] + runs(rest, cls) =~= seq![r]);
            assert(join(seq![r], sep) == r);
            assert(r =~= s);
        } else {
            assert(!in_class(cls, s[m]));
            assert(s[m] == '_');
            assert(m < s.len() - 1);
            assert(s[m + 1] != '_');
            assert(rest[0] == '_');
            assert(!in_class(cls, rest[0]));
            let t = rest.drop_first();
            assert(t =~= s.skip(m + 1));
            assert(runs(rest, cls) == runs(t, cls));
            assert(clean_label(t)) by {
                assert forall|i: int| 0 <= i < t.len() implies is_label_char(#[trigger] t[i]) || t[i] == '_' by {
                    assert(t[i] == s[i + m + 1]);
                }
                assert(t[0] == s[m + 1]);
                assert(t.last() == s.last());
                assert forall|i: int| 0 <= i < t.len() - 1 implies !(#[trigger] t[i] == '_' && t[i + 1] == '_') by {
                    assert(t[i] == s[i + m + 1]);
                    assert(t[i + 1] == s[i + m + 2]);
                }
            }
            lemma_clean_runs_join(t);
            assert(runs(t, cls).len() > 0) by {
                if runs(t, cls).len() == 0 {
                    assert(join(runs(t, cls), sep).len() == 0);
                }
            }
            lemma_join_prepend(r, runs(t, cls), sep);
            assert(r =~= s.take(m));
            assert(s =~= s.take(m) + sep + t);
        }
    } else {
        assert(runs(s, cls).len() == 0);
    }
}

proof fn lemma_clean_fixed(s: Seq<char>)
    requires
        clean_label(s),
    ensures
        join(runs(lower_seq(trim(s)), CharClass::AsciiAlnum), seq!['_']) == s,
{
    if s.len() > 0 {
        assert(is_label_char(s[0]) && !is_ws(s[0]));
        assert(trim_start(s) == s);
        assert(is_label_char(s.last()) && !is_ws(s.last()));
        assert(trim_end(s) == s);
    } else {
        assert(trim_start(s) == s);
        assert(trim_end(s) == s);
    }
    assert(trim(s) == s);
    assert(lower_seq(s) =~= s) by {
        assert forall|i: int| 0 <= i < s.len() implies lower_seq(s)[i] == s[i] by {
            assert(is_label_char(s[i]) || s[i] == '_');
        }
    }
    lemma_clean_runs_join(s);
}

/// Normalising a normalised label changes nothing.
pub proof fn lemma_normalized_label_idempotent(raw: Seq<char>)
    ensures
        normalized_label(normalized_label(raw)) == normalized_label(raw),
{
    let s = normalized_label(raw);
    lemma_normalized_label_clean(raw);
    lemma_clean_fixed(s);
    reveal_strlit("package");
    if s == "package"@ {
        assert(starts_with(s, "package"@)) by {
            assert(s.subrange(0, 7) =~= s);
        }
    }
}

pub open spec fn has_alnum(s: Seq<char>) -> bool {
    exists|i: int| 0 <= i < s.len() && is_alnum(#[trigger] s[i])
}

/// A text has runs of letters and digits exactly when it has a letter or
/// digit.
proof fn lemma_runs_empty(s: Seq<char>)
    ensures
        (runs(s, CharClass::AsciiAlnum).len() == 0) == !has_alnum(s),
    decreases s.len(),
{
    let cls = CharClass::AsciiAlnum;
    if s.len() > 0 {
        if !in_class(cls, s[0]) {
            lemma_runs_empty(s.drop_first());
            assert(runs(s, cls) == runs(s.drop_first(), cls));
            if has_alnum(s) {
                let i = choose|i: int| 0 <= i < s.len() && is_alnum(#[trigger] s[i]);
                assert(s.drop_first()[i - 1] == s[i]);
            }
            if has_alnum(s.drop_first()) {
                let i = choose|i: int| 0 <= i < s.drop_first().len() && is_alnum(#[trigger] s.drop_first()[i]);
                assert(s[i + 1] == s.drop_first()[i]);
            }
        } else {
            lemma_leading_run(s, cls);
            assert(leading_run(s, cls).len() > 0) by {
                assert(leading_run(s, cls) == seq![s[0]] + leading_run(s.drop_first(), cls));
            }
            assert(runs(s, cls).len() > 0);
            assert(is_alnum(s[0]));
        }
    }
}

/// Trimming keeps every character that is not whitespace, and adds none.
proof fn lemma_trim_start_alnum(s: Seq<char>)
    ensures
        has_alnum(trim_start(s)) == has_alnum(s),
    decreases s.len(),
{
    if s.len() > 0 && is_ws(s[0]) {
        lemma_trim_start_alnum(s.drop_first());
        assert(!is_alnum(s[0]));
        if has_alnum(s) {
            let i = choose|i: int| 0 <= i < s.len() && is_alnum(#[trigger] s[i]);
            assert(s.drop_first()[i - 1] == s[i]);
        }
        if has_alnum(s.drop_first()) {
            let i = choose|i: int| 0 <= i < s.drop_first().len() && is_alnum(#[trigger] s.drop_first()[i]);
            assert(s[i + 1] == s.drop_first()[i]);
        }
    }
}

proof fn lemma_trim_end_alnum(s: Seq<char>)
    ensures
        has_alnum(trim_end(s)) == has_alnum(s),
    decreases s.len(),
{
    if s.len() > 0 && is_ws(s.last()) {
        lemma_trim_end_alnum(s.drop_last());
        assert(!is_alnum(s.last()));
        if has_alnum(s) {
            let i = choose|i: int| 0 <= i < s.len() && is_alnum(#[trigger] s[i]);
            assert(s.drop_last()[i] == s[i]);
        }
        if has_alnum(s.drop_last()) {
            let i = choose|i: int| 0 <= i < s.drop_last().len() && is_alnum(#[trigger] s.drop_last()[i]);
            assert(s[i] == s.drop_last()[i]);
        }
    }
}

/// A label normalises to nothing exactly when it has no ASCII letter or
/// digit.
pub proof fn lemma_normalized_label_empty(raw: Seq<char>)
    ensures
        (normalized_label(raw).len() == 0) == !has_alnum(raw),
{
    let t = trim(raw);
    let lowered = lower_seq(t);
    lemma_trim_start_alnum(raw);
    lemma_trim_end_alnum(trim_start(raw));
    assert(has_alnum(lowered) == has_alnum(t)) by {
        if has_alnum(t) {
            let i = choose|i: int| 0 <= i < t.len() && is_alnum(#[trigger] t[i]);
            assert(is_alnum(lowered[i]));
        }
        if has_alnum(lowered) {
            let i = choose|i: int| 0 <= i < lowered.len() && is_alnum(#[trigger] lowered[i]);
            assert(is_alnum(t[i]));
        }
    }
    lemma_runs_empty(lowered);
    lemma_lower_no_upper(t);
    lemma_runs_label_chars(lowered);
    lemma_join_clean(runs(lowered, CharClass::AsciiAlnum));
    reveal_strlit("package");
}

} // verus!
