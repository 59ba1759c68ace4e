//! Character-sequence helpers shared by the parsers of this crate.
//!
//! Text is handled as sequences of `char`; every helper states its result
//! over a spec function on `Seq<char>` that mirrors the `str` method the
//! parsers are written against (`trim`, `lines`, `split_once`, `parse`, ...).

use vstd::prelude::*;
use vstd::std_specs::iter::IteratorSpec;

verus! {

broadcast use vstd::string::group_string_axioms;

// ---------------------------------------------------------------------------
// Conversions between `str`/`String` and `Vec<char>`
// ---------------------------------------------------------------------------

/// The characters of `s`, in order.
pub fn chars_of(s: &str) -> (r: Vec<char>)
    ensures
        r@ == s@,
{
    let mut out: Vec<char> = Vec::new();
    for c in it: s.chars()
        invariant
            out@ == it.history(),
    {
        out.push(c);
    }
    out
}

/// `String::push`: appends one character.
#[verifier::external_body]
pub(crate) fn push_char(s: &mut String, c: char)
    ensures
        final(s)@ == old(s)@.push(c),
{
    s.push(c);
}

/// The string made of the characters of `v`, in order.
pub fn string_of(v: &[char]) -> (r: String)
    ensures
        r@ == v@,
{
    let mut out = String::new();
    let mut i: usize = 0;
    while i < v.len()
        invariant
            0 <= i <= v.len(),
            out@ == v@.take(i as int),
        decreases v.len() - i,
    {
        push_char(&mut out, v[i]);
        assert(v@.take(i as int + 1) =~= v@.take(i as int).push(v@[i as int]));
        i += 1;
    }
    assert(v@.take(v.len() as int) =~= v@);
    out
}

/// The characters of `v[from..to]` as a new vector.
pub fn slice_chars(v: &[char], from: usize, to: usize) -> (r: Vec<char>)
    requires
        from <= to <= v.len(),
    ensures
        r@ == v@.subrange(from as int, to as int),
{
    let mut out: Vec<char> = Vec::new();
    let mut i = from;
    while i < to
        invariant
            from <= i <= to <= v.len(),
            out@ == v@.subrange(from as int, i as int),
        decreases to - i,
    {
        out.push(v[i]);
        assert(v@.subrange(from as int, i as int + 1) =~= v@.subrange(from as int, i as int).push(
            v@[i as int],
        ));
        i += 1;
    }
    out
}

/// `a` followed by `b`.
pub fn concat(a: &[char], b: &[char]) -> (r: Vec<char>)
    ensures
        r@ == a@ + b@,
{
    let mut out = slice_chars(a, 0, a.len());
    let mut i: usize = 0;
    while i < b.len()
        invariant
            0 <= i <= b.len(),
            out@ == a@ + b@.take(i as int),
        decreases b.len() - i,
    {
        out.push(b[i]);
        assert(a@ + b@.take(i as int + 1) =~= (a@ + b@.take(i as int)).push(b@[i as int]));
        i += 1;
    }
    assert(a@.subrange(0, a@.len() as int) =~= a@);
    assert(b@.take(b.len() as int) =~= b@);
    out
}

/// Whether `a` and `b` hold the same characters.
pub fn chars_eq(a: &[char], b: &[char]) -> (r: bool)
    ensures
        r == (a@ == b@),
{
    if a.len() != b.len() {
        return false;
    }
    let mut i: usize = 0;
    while i < a.len()
        invariant
            a.len() == b.len(),
            0 <= i <= a.len(),
            forall|k: int| 0 <= k < i ==> a@[k] == b@[k],
        decreases a.len() - i,
    {
        if a[i] != b[i] {
            return false;
        }
        i += 1;
    }
    assert(a@ =~= b@);
    true
}

// ---------------------------------------------------------------------------
// Character classes
// ---------------------------------------------------------------------------

/// `char::is_whitespace`: the Unicode `White_Space` property.
pub open spec fn is_ws(c: char) -> bool {
    let u = c as u32;
    ||| u == 0x20
    ||| 0x09 <= u <= 0x0d
    ||| u == 0x85
    ||| u == 0xa0
    ||| u == 0x1680
    ||| 0x2000 <= u <= 0x200a
    ||| u == 0x2028
    ||| u == 0x2029
    ||| u == 0x202f
    ||| u == 0x205f
    ||| u == 0x3000
}

/// `char::is_ascii_digit`.
pub open spec fn is_digit(c: char) -> bool {
    '0' <= c <= '9'
}

/// `char::is_ascii_alphanumeric`.
pub open spec fn is_alnum(c: char) -> bool {
    ||| '0' <= c <= '9'
    ||| 'a' <= c <= 'z'
    ||| 'A' <= c <= 'Z'
}

/// `char::to_ascii_lowercase`.
pub open spec fn lower(c: char) -> char {
    if 'A' <= c <= 'Z' {
        ((c as u32) + 32) as char
    } else {
        c
    }
}

/// `str::to_ascii_lowercase`.
pub open spec fn lower_seq(s: Seq<char>) -> Seq<char> {
    s.map_values(|c: char| lower(c))
}

pub fn is_whitespace(c: char) -> (r: bool)
    ensures
        r == is_ws(c),
{
    let u = c as u32;
    u == 0x20 || (0x09 <= u && u <= 0x0d) || u == 0x85 || u == 0xa0 || u == 0x1680 || (0x2000
        <= u && u <= 0x200a) || u == 0x2028 || u == 0x2029 || u == 0x202f || u == 0x205f || u
        == 0x3000
}

pub fn is_ascii_digit(c: char) -> (r: bool)
    ensures
        r == is_digit(c),
{
    '0' <= c && c <= '9'
}

pub fn is_ascii_alnum(c: char) -> (r: bool)
    ensures
        r == is_alnum(c),
{
    ('0' <= c && c <= '9') || ('a' <= c && c <= 'z') || ('A' <= c && c <= 'Z')
}

pub fn to_lower(c: char) -> (r: char)
    ensures
        r == lower(c),
{
    if 'A' <= c && c <= 'Z' {
        let u = (c as u32) + 32;
        assert(0x61 <= u <= 0x7a);
        char_from_ascii(u as u8)
    } else {
        c
    }
}

/// The character with the given ASCII code.
pub fn char_from_ascii(b: u8) -> (r: char)
    requires
        b < 128,
    ensures
        r == (b as u32) as char,
        r as u32 == b as u32,
{
    b as char
}

/// `str::to_ascii_lowercase` on a character sequence.
pub fn to_lower_chars(s: &[char]) -> (r: Vec<char>)
    ensures
        r@ == lower_seq(s@),
{
    let mut out: Vec<char> = Vec::new();
    let mut i: usize = 0;
    while i < s.len()
        invariant
            0 <= i <= s.len(),
            out@ == lower_seq(s@.take(i as int)),
        decreases s.len() - i,
    {
        let c = to_lower(s[i]);
        out.push(c);
        assert(lower_seq(s@.take(i as int + 1)) =~= lower_seq(s@.take(i as int)).push(c));
        i += 1;
    }
    assert(s@.take(s.len() as int) =~= s@);
    out
}

// ---------------------------------------------------------------------------
// Trimming
// ---------------------------------------------------------------------------

/// `str::trim_start`.
pub open spec fn trim_start(s: Seq<char>) -> Seq<char>
    decreases s.len(),
{
    if s.len() > 0 && is_ws(s[0]) {
        trim_start(s.drop_first())
    } else {
        s
    }
}

/// `str::trim_end`.
pub open spec fn trim_end(s: Seq<char>) -> Seq<char>
    decreases s.len(),
{
    if s.len() > 0 && is_ws(s.last()) {
        trim_end(s.drop_last())
    } else {
        s
    }
}

/// `str::trim`.
pub open spec fn trim(s: Seq<char>) -> Seq<char> {
    trim_end(trim_start(s))
}

/// `str::trim` on a character sequence.
pub fn trim_chars(s: &[char]) -> (r: Vec<char>)
    ensures
        r@ == trim(s@),
{
    let n = s.len();
    let mut i: usize = 0;
    assert(s@.subrange(0, n as int) =~= s@);
    while i < n && is_whitespace(s[i])
        invariant
            0 <= i <= n == s.len(),
            trim_start(s@) == trim_start(s@.subrange(i as int, n as int)),
        decreases n - i,
    {
        assert(s@.subrange(i as int, n as int).drop_first() =~= s@.subrange(i as int + 1, n as int));
        i += 1;
    }
    assert(trim_start(s@.subrange(i as int, n as int)) == s@.subrange(i as int, n as int));
    let mut j: usize = n;
    while j > i && is_whitespace(s[j - 1])
        invariant
            0 <= i <= j <= n == s.len(),
            trim(s@) == trim_end(s@.subrange(i as int, j as int)),
        decreases j,
    {
        assert(s@.subrange(i as int, j as int).drop_last() =~= s@.subrange(i as int, j - 1));
        j -= 1;
    }
    slice_chars(s, i, j)
}

// ---------------------------------------------------------------------------
// Searching
// ---------------------------------------------------------------------------

/// Whether `n` occurs in `s` at position `i`.
pub open spec fn matches_at(s: Seq<char>, n: Seq<char>, i: int) -> bool {
    0 <= i && i + n.len() <= s.len() && s.subrange(i, i + n.len()) == n
}

/// The first position at or after `i` where `n` occurs in `s`.
pub open spec fn find_from(s: Seq<char>, n: Seq<char>, i: int) -> Option<int>
    decreases s.len() + 1 - i,
{
    if i < 0 || i + n.len() > s.len() {
        None
    } else if matches_at(s, n, i) {
        Some(i)
    } else {
        find_from(s, n, i + 1)
    }
}

/// `str::find`.
pub open spec fn find(s: Seq<char>, n: Seq<char>) -> Option<int> {
    find_from(s, n, 0)
}

/// `str::contains`.
pub open spec fn contains(s: Seq<char>, n: Seq<char>) -> bool {
    find(s, n) is Some
}

/// `str::starts_with`.
pub open spec fn starts_with(s: Seq<char>, p: Seq<char>) -> bool {
    p.len() <= s.len() && s.subrange(0, p.len() as int) == p
}

/// `str::ends_with`.
pub open spec fn ends_with(s: Seq<char>, p: Seq<char>) -> bool {
    p.len() <= s.len() && s.subrange(s.len() - p.len(), s.len() as int) == p
}

pub proof fn lemma_find_from_bounds(s: Seq<char>, n: Seq<char>, i: int)
    requires
        0 <= i,
    ensures
        find_from(s, n, i) matches Some(k) ==> i <= k && matches_at(s, n, k) && forall|j: int|
            i <= j < k ==> !matches_at(s, n, j),
        find_from(s, n, i) is None ==> forall|j: int| i <= j ==> !matches_at(s, n, j),
    decreases s.len() + 1 - i,
{
    if i < 0 || i + n.len() > s.len() {
    } else if matches_at(s, n, i) {
    } else {
        lemma_find_from_bounds(s, n, i + 1);
    }
}

/// Whether `n` occurs in `s` at position `i` (executable).
pub fn matches_at_exec(s: &[char], n: &[char], i: usize) -> (r: bool)
    ensures
        r == matches_at(s@, n@, i as int),
{
    if i > s.len() || n.len() > s.len() - i {
        return false;
    }
    let mut k: usize = 0;
    while k < n.len()
        invariant
            i + n.len() <= s.len(),
            0 <= k <= n.len(),
            forall|j: int| 0 <= j < k ==> s@[i + j] == n@[j],
        decreases n.len() - k,
    {
        if s[i + k] != n[k] {
            assert(s@.subrange(i as int, i + n.len())[k as int] != n@[k as int]);
            return false;
        }
        k += 1;
    }
    assert(s@.subrange(i as int, i + n.len()) =~= n@);
    true
}

/// `str::find` from position `start`.
pub fn find_chars_from(s: &[char], n: &[char], start: usize) -> (r: Option<usize>)
    ensures
        r matches Some(k) ==> find_from(s@, n@, start as int) == Some(k as int),
        r is None ==> find_from(s@, n@, start as int) is None,
{
    if n.len() > s.len() || start > s.len() - n.len() {
        return None;
    }
    let mut i = start;
    let last = s.len() - n.len();
    loop
        invariant
            start <= i <= last,
            last + n.len() == s.len(),
            find_from(s@, n@, start as int) == find_from(s@, n@, i as int),
        decreases last - i,
    {
        if matches_at_exec(s, n, i) {
            return Some(i);
        }
        if i == last {
            assert(find_from(s@, n@, i + 1) is None);
            return None;
        }
        i += 1;
    }
}

/// `str::find`.
pub fn find_chars(s: &[char], n: &[char]) -> (r: Option<usize>)
    ensures
        r matches Some(k) ==> find(s@, n@) == Some(k as int),
        r is None ==> find(s@, n@) is None,
{
    find_chars_from(s, n, 0)
}

/// `str::contains`.
pub fn contains_chars(s: &[char], n: &[char]) -> (r: bool)
    ensures
        r == contains(s@, n@),
{
    find_chars(s, n).is_some()
}

/// `str::starts_with`.
pub fn starts_with_chars(s: &[char], p: &[char]) -> (r: bool)
    ensures
        r == starts_with(s@, p@),
{
    let r = matches_at_exec(s, p, 0);
    r
}

/// `str::ends_with`.
pub fn ends_with_chars(s: &[char], p: &[char]) -> (r: bool)
    ensures
        r == ends_with(s@, p@),
{
    if p.len() > s.len() {
        return false;
    }
    matches_at_exec(s, p, s.len() - p.len())
}

/// The first position of the character `c` in `s`.
pub open spec fn index_of(s: Seq<char>, c: char) -> Option<int> {
    find(s, seq![c])
}

pub proof fn lemma_index_of(s: Seq<char>, c: char)
    ensures
        index_of(s, c) matches Some(k) ==> 0 <= k < s.len() && s[k] == c && forall|j: int|
            0 <= j < k ==> s[j] != c,
        index_of(s, c) is None ==> forall|j: int| 0 <= j < s.len() ==> s[j] != c,
{
    lemma_find_from_bounds(s, seq![c], 0);
    if let Some(k) = index_of(s, c) {
        assert(s.subrange(k, k + 1)[0] == c);
        assert forall|j: int| 0 <= j < k implies s[j] != c by {
            if s[j] == c {
                assert(s.subrange(j, j + 1) =~= seq![c]);
                assert(matches_at(s, seq![c], j));
            }
        }
    } else {
        assert forall|j: int| 0 <= j < s.len() implies s[j] != c by {
            if s[j] == c {
                assert(s.subrange(j, j + 1) =~= seq![c]);
                assert(matches_at(s, seq![c], j));
            }
        }
    }
}

/// The first position of the character `c` in `s`.
pub fn index_of_char(s: &[char], c: char) -> (r: Option<usize>)
    ensures
        r matches Some(k) ==> index_of(s@, c) == Some(k as int),
        r is None ==> index_of(s@, c) is None,
{
    let mut i: usize = 0;
    while i < s.len()
        invariant
            0 <= i <= s.len(),
            forall|j: int| 0 <= j < i ==> s@[j] != c,
        decreases s.len() - i,
    {
        if s[i] == c {
            proof {
                lemma_index_of(s@, c);
                assert(s@.subrange(i as int, i + 1) =~= seq![c]);
                lemma_find_from_bounds(s@, seq![c], 0);
            }
            return Some(i);
        }
        i += 1;
    }
    proof {
        lemma_index_of(s@, c);
    }
    None
}

/// `str::split_once` on a character separator.
pub open spec fn split_once(s: Seq<char>, c: char) -> Option<(Seq<char>, Seq<char>)> {
    match index_of(s, c) {
        Some(k) => Some((s.take(k), s.skip(k + 1))),
        None => None,
    }
}

/// `str::split_once` on a character separator.
pub fn split_once_chars(s: &[char], c: char) -> (r: Option<(Vec<char>, Vec<char>)>)
    ensures
        r matches Some((a, b)) ==> split_once(s@, c) == Some((a@, b@)),
        r is None ==> split_once(s@, c) is None,
{
    match index_of_char(s, c) {
        Some(k) => {
            proof {
                lemma_index_of(s@, c);
                assert(index_of(s@, c) == Some(k as int));
                assert(k < s.len());
            }
            let a = slice_chars(s, 0, k);
            let b = slice_chars(s, k + 1, s.len());
            assert(a@ =~= s@.take(k as int));
            assert(b@ =~= s@.skip(k + 1));
            Some((a, b))
        },
        None => None,
    }
}

/// The last position of the character `c` in `s`.
pub open spec fn last_index_of(s: Seq<char>, c: char) -> Option<int>
    decreases s.len(),
{
    if s.len() == 0 {
        None
    } else if s.last() == c {
        Some(s.len() - 1)
    } else {
        last_index_of(s.drop_last(), c)
    }
}

pub proof fn lemma_last_index_of(s: Seq<char>, c: char)
    ensures
        last_index_of(s, c) matches Some(k) ==> 0 <= k < s.len() && s[k] == c && forall|j: int|
            k < j < s.len() ==> s[j] != c,
        last_index_of(s, c) is None ==> forall|j: int| 0 <= j < s.len() ==> s[j] != c,
    decreases s.len(),
{
    if s.len() > 0 && s.last() != c {
        lemma_last_index_of(s.drop_last(), c);
        assert forall|j: int| 0 <= j < s.len() - 1 implies s.drop_last()[j] == s[j] by {}
    }
}

/// `str::rsplit_once` on a character separator.
pub open spec fn rsplit_once(s: Seq<char>, c: char) -> Option<(Seq<char>, Seq<char>)> {
    match last_index_of(s, c) {
        Some(k) => Some((s.take(k), s.skip(k + 1))),
        None => None,
    }
}

/// `str::rsplit_once` on a character separator.
pub fn rsplit_once_chars(s: &[char], c: char) -> (r: Option<(Vec<char>, Vec<char>)>)
    ensures
        r matches Some((a, b)) ==> rsplit_once(s@, c) == Some((a@, b@)),
        r is None ==> rsplit_once(s@, c) is None,
{
    let mut j: usize = s.len();
    assert(s@.take(j as int) =~= s@);
    while j > 0
        invariant
            0 <= j <= s.len(),
            last_index_of(s@, c) == last_index_of(s@.take(j as int), c),
        decreases j,
    {
        if s[j - 1] == c {
            let a = slice_chars(s, 0, j - 1);
            let b = slice_chars(s, j, s.len());
            assert(a@ =~= s@.take(j - 1));
            assert(b@ =~= s@.skip(j as int));
            return Some((a, b));
        }
        assert(s@.take(j as int).drop_last() =~= s@.take(j - 1));
        j -= 1;
    }
    None
}

// ---------------------------------------------------------------------------
// Lines
// ---------------------------------------------------------------------------

/// A line without its trailing `'\r'`, as `str::lines` yields it.
pub open spec fn strip_cr(s: Seq<char>) -> Seq<char> {
    if s.len() > 0 && s.last() == '\r' {
        s.drop_last()
    } else {
        s
    }
}

/// `str::lines`: split at `'\n'`, with one `'\r'` before each `'\n'`
/// removed; a final line ending produces no empty line.
pub open spec fn lines(s: Seq<char>) -> Seq<Seq<char>>
    decreases s.len(),
{
    if s.len() == 0 {
        seq![]
    } else {
        match index_of(s, '\n') {
            Some(k) => if 0 <= k < s.len() {
                seq![strip_cr(s.take(k))] + lines(s.skip(k + 1))
            } else {
                seq![]
            },
            None => seq![s],
        }
    }
}

/// `str::lines`.
pub fn lines_of(s: &[char]) -> (r: Vec<Vec<char>>)
    ensures
        r@.len() == lines(s@).len(),
        forall|i: int| 0 <= i < r@.len() ==> (#[trigger] r@[i])@ == lines(s@)[i],
{
    let mut out: Vec<Vec<char>> = Vec::new();
    let mut start: usize = 0;
    let ghost done: Seq<Seq<char>> = seq![];
    assert(s@.skip(0) =~= s@);
    assert(lines(s@) =~= done + lines(s@.skip(0)));
    while start < s.len()
        invariant
            0 <= start <= s.len(),
            out@.len() == done.len(),
            forall|i: int| 0 <= i < out@.len() ==> (#[trigger] out@[i])@ == done[i],
            lines(s@) == done + lines(s@.skip(start as int)),
        decreases s.len() - start,
    {
        let ghost rest = s@.skip(start as int);
        proof {
            lemma_index_of(rest, '\n');
        }
        let mut j = start;
        while j < s.len() && s[j] != '\n'
            invariant
                start <= j <= s.len(),
                forall|k: int| start <= k < j ==> s@[k] != '\n',
            decreases s.len() - j,
        {
            j += 1;
        }
        if j < s.len() {
            let mut end = j;
            if end > start && s[end - 1] == '\r' {
                end -= 1;
            }
            let line = slice_chars(s, start, end);
            proof {
                assert(rest[j - start] == '\n');
                match index_of(rest, '\n') {
                    Some(k) => {
                        if 0 <= k < j - start {
                            assert(rest[k] == s@[start + k]);
                        }
                    },
                    None => {},
                }
                let k = index_of(rest, '\n')->0;
                assert(k == j - start);
                assert(strip_cr(rest.take(k)) =~= line@);
                assert(rest.skip(k + 1) =~= s@.skip(j + 1));
                done = done.push(line@);
            }
            out.push(line);
            start = j + 1;
        } else {
            let line = slice_chars(s, start, s.len());
            proof {
                assert(rest.len() > 0);
                if let Some(k) = index_of(rest, '\n') {
                    assert(rest[k] == s@[start + k]);
                }
                assert(line@ =~= rest);
                assert(s@.skip(s.len() as int) =~= Seq::<char>::empty());
                done = done.push(line@);
            }
            out.push(line);
            start = s.len();
        }
        proof {
            assert(lines(s@) == done + lines(s@.skip(start as int)));
        }
    }
    proof {
        assert(s@.skip(start as int) =~= Seq::<char>::empty());
        assert(done + lines(s@.skip(start as int)) =~= done);
    }
    out
}

// ---------------------------------------------------------------------------
// Runs of characters (`split` + `filter(non-empty)`)
// ---------------------------------------------------------------------------

/// The character classes whose maximal runs the parsers split text into.
#[derive(Clone, Copy, PartialEq, Eq, Debug)]
pub enum CharClass {
    /// ASCII digits (`split(|c| !c.is_ascii_digit())`).
    AsciiDigit,
    /// Anything but whitespace (`split_whitespace`).
    NonWhitespace,
    /// Anything but whitespace and `','`.
    NonWhitespaceNorComma,
    /// Anything but `'/'` (the components of a Unix path).
    NonSlash,
    /// ASCII letters and digits.
    AsciiAlnum,
}

pub open spec fn in_class(cls: CharClass, c: char) -> bool {
    match cls {
        CharClass::AsciiDigit => is_digit(c),
        CharClass::NonWhitespace => !is_ws(c),
        CharClass::NonWhitespaceNorComma => !is_ws(c) && c != ',',
        CharClass::NonSlash => c != '/',
        CharClass::AsciiAlnum => is_alnum(c),
    }
}

pub fn in_class_exec(cls: CharClass, c: char) -> (r: bool)
    ensures
        r == in_class(cls, c),
{
    match cls {
        CharClass::AsciiDigit => is_ascii_digit(c),
        CharClass::NonWhitespace => !is_whitespace(c),
        CharClass::NonWhitespaceNorComma => !is_whitespace(c) && c != ',',
        CharClass::NonSlash => c != '/',
        CharClass::AsciiAlnum => is_ascii_alnum(c),
    }
}

/// The longest prefix of `s` whose characters are all in `cls`.
pub open spec fn leading_run(s: Seq<char>, cls: CharClass) -> Seq<char>
    decreases s.len(),
{
    if s.len() > 0 && in_class(cls, s[0]) {
        seq![s[0]] + leading_run(s.drop_first(), cls)
    } else {
        seq![]
    }
}

pub proof fn lemma_leading_run(s: Seq<char>, cls: CharClass)
    ensures
        leading_run(s, cls).len() <= s.len(),
        leading_run(s, cls) == s.take(leading_run(s, cls).len() as int),
        forall|i: int| 0 <= i < leading_run(s, cls).len() ==> in_class(cls, s[i]),
        leading_run(s, cls).len() < s.len() ==> !in_class(cls, s[leading_run(s, cls).len() as int]),
    decreases s.len(),
{
    if s.len() > 0 && in_class(cls, s[0]) {
        lemma_leading_run(s.drop_first(), cls);
        let r = leading_run(s.drop_first(), cls);
        assert(seq![s[0]] + r =~= s.take(r.len() as int + 1));
        assert forall|i: int| 0 <= i < r.len() + 1 implies in_class(cls, s[i]) by {
            if i > 0 {
                assert(s[i] == s.drop_first()[i - 1]);
            }
        }
    } else {
        assert(s.take(0) =~= Seq::<char>::empty());
    }
}

/// The maximal non-empty runs of `s` made of characters in `cls`, in order.
pub open spec fn runs(s: Seq<char>, cls: CharClass) -> Seq<Seq<char>>
    decreases s.len(),
{
    if s.len() == 0 {
        seq![]
    } else if !in_class(cls, s[0]) {
        runs(s.drop_first(), cls)
    } else {
        let r = leading_run(s, cls);
        if r.len() == 0 || r.len() > s.len() {
            seq![]
        } else {
            seq![r] + runs(s.skip(r.len() as int), cls)
        }
    }
}

/// The leading run of `s[i..]` (executable): returns its end position.
pub fn leading_run_end(s: &[char], i: usize, cls: CharClass) -> (r: usize)
    requires
        i <= s.len(),
    ensures
        i <= r <= s.len(),
        leading_run(s@.skip(i as int), cls) == s@.subrange(i as int, r as int),
{
    let mut j = i;
    while j < s.len() && in_class_exec(cls, s[j])
        invariant
            i <= j <= s.len(),
            forall|k: int| i <= k < j ==> in_class(cls, s@[k]),
        decreases s.len() - j,
    {
        j += 1;
    }
    proof {
        lemma_leading_run_exact(s@.skip(i as int), cls, (j - i) as int);
        assert(s@.skip(i as int).take(j - i) =~= s@.subrange(i as int, j as int));
    }
    j
}

pub proof fn lemma_leading_run_exact(s: Seq<char>, cls: CharClass, n: int)
    requires
        0 <= n <= s.len(),
        forall|k: int| 0 <= k < n ==> in_class(cls, s[k]),
        n < s.len() ==> !in_class(cls, s[n]),
    ensures
        leading_run(s, cls) == s.take(n),
    decreases n,
{
    if n == 0 {
        assert(s.take(0) =~= Seq::<char>::empty());
    } else {
        assert forall|k: int| 0 <= k < n - 1 implies in_class(cls, s.drop_first()[k]) by {
            assert(s.drop_first()[k] == s[k + 1]);
        }
        if n - 1 < s.drop_first().len() {
            assert(s.drop_first()[n - 1] == s[n]);
        }
        lemma_leading_run_exact(s.drop_first(), cls, n - 1);
        assert(seq![s[0]] + s.drop_first().take(n - 1) =~= s.take(n));
    }
}

/// `split` on characters outside `cls`, with empty pieces dropped.
pub fn runs_of(s: &[char], cls: CharClass) -> (r: Vec<Vec<char>>)
    ensures
        r@.len() == runs(s@, cls).len(),
        forall|i: int| 0 <= i < r@.len() ==> (#[trigger] r@[i])@ == runs(s@, cls)[i],
{
    let mut out: Vec<Vec<char>> = Vec::new();
    let ghost done: Seq<Seq<char>> = seq![];
    let mut i: usize = 0;
    assert(s@.skip(0) =~= s@);
    assert(runs(s@, cls) =~= done + runs(s@.skip(0), cls));
    while i < s.len()
        invariant
            0 <= i <= s.len(),
            out@.len() == done.len(),
            forall|k: int| 0 <= k < out@.len() ==> (#[trigger] out@[k])@ == done[k],
            runs(s@, cls) == done + runs(s@.skip(i as int), cls),
        decreases s.len() - i,
    {
        let ghost rest = s@.skip(i as int);
        if !in_class_exec(cls, s[i]) {
            assert(rest.drop_first() =~= s@.skip(i + 1));
            assert(done + runs(rest, cls) =~= done + runs(s@.skip(i + 1), cls));
            i += 1;
        } else {
            let end = leading_run_end(s, i, cls);
            let piece = slice_chars(s, i, end);
            proof {
                lemma_leading_run(rest, cls);
                assert(rest.skip(leading_run(rest, cls).len() as int) =~= s@.skip(end as int));
                done = done.push(piece@);
                assert(runs(rest, cls) == seq![piece@] + runs(s@.skip(end as int), cls));
                assert(done + runs(s@.skip(end as int), cls) =~= (done.drop_last() + seq![piece@])
                    + runs(s@.skip(end as int), cls));
            }
            out.push(piece);
            i = end;
        }
    }
    proof {
        assert(s@.skip(i as int) =~= Seq::<char>::empty());
        assert(done + runs(s@.skip(i as int), cls) =~= done);
    }
    out
}

/// `parts` joined with `sep` between each two (`[..].join(sep)`).
pub open spec fn join(parts: Seq<Seq<char>>, sep: Seq<char>) -> Seq<char>
    decreases parts.len(),
{
    if parts.len() == 0 {
        seq![]
    } else if parts.len() == 1 {
        parts[0]
    } else {
        join(parts.drop_last(), sep) + sep + parts.last()
    }
}

pub fn join_chars(parts: &[Vec<char>], sep: &[char]) -> (r: Vec<char>)
    ensures
        r@ == join(parts@.map_values(|p: Vec<char>| p@), sep@),
{
    let ghost views = parts@.map_values(|p: Vec<char>| p@);
    let mut out: Vec<char> = Vec::new();
    let mut i: usize = 0;
    while i < parts.len()
        invariant
            0 <= i <= parts@.len(),
            views == parts@.map_values(|p: Vec<char>| p@),
            out@ == join(views.take(i as int), sep@),
        decreases parts.len() - i,
    {
        assert(views.take(i + 1).drop_last() =~= views.take(i as int));
        if i == 0 {
            out = slice_chars(&parts[0], 0, parts[0].len());
            assert(parts@[0]@.subrange(0, parts@[0]@.len() as int) =~= parts@[0]@);
        } else {
            let with_sep = concat(&out, sep);
            out = concat(&with_sep, &parts[i]);
        }
        i += 1;
    }
    assert(views.take(parts.len() as int) =~= views);
    out
}

// ---------------------------------------------------------------------------
// Numbers
// ---------------------------------------------------------------------------

/// Whether `c` is a digit in base `radix` (10 or 16), as `char::to_digit`.
pub open spec fn is_radix_digit(c: char, radix: nat) -> bool {
    if radix == 16 {
        ||| '0' <= c <= '9'
        ||| 'a' <= c <= 'f'
        ||| 'A' <= c <= 'F'
    } else {
        '0' <= c <= '9'
    }
}

/// The value of the digit `c`.
pub open spec fn digit_value(c: char) -> nat {
    if '0' <= c <= '9' {
        ((c as u32) - ('0' as u32)) as nat
    } else if 'a' <= c <= 'f' {
        ((c as u32) - ('a' as u32) + 10) as nat
    } else if 'A' <= c <= 'F' {
        ((c as u32) - ('A' as u32) + 10) as nat
    } else {
        0
    }
}

pub open spec fn all_radix_digits(s: Seq<char>, radix: nat) -> bool {
    forall|i: int| 0 <= i < s.len() ==> is_radix_digit(#[trigger] s[i], radix)
}

/// The value of the digit string `s` in base `radix`.
pub open spec fn digits_value(s: Seq<char>, radix: nat) -> nat
    decreases s.len(),
{
    if s.len() == 0 {
        0
    } else {
        digits_value(s.drop_last(), radix) * radix + digit_value(s.last())
    }
}

/// `uN::from_str_radix(s, radix)` for an unsigned type whose maximum is `max`:
/// an optional `'+'`, then at least one digit, and a value that fits.
pub open spec fn parse_unsigned(s: Seq<char>, radix: nat, max: nat) -> Option<nat> {
    if s.len() == 0 {
        None
    } else {
        let d = if s[0] == '+' {
            s.drop_first()
        } else {
            s
        };
        if d.len() == 0 {
            None
        } else if all_radix_digits(d, radix) && digits_value(d, radix) <= max {
            Some(digits_value(d, radix))
        } else {
            None
        }
    }
}

pub proof fn lemma_digits_prefix_le(s: Seq<char>, radix: nat, i: int)
    requires
        radix >= 1,
        0 <= i <= s.len(),
    ensures
        digits_value(s.take(i), radix) <= digits_value(s, radix),
    decreases s.len() - i,
{
    if i < s.len() {
        lemma_digits_prefix_le(s, radix, i + 1);
        assert(s.take(i + 1).drop_last() =~= s.take(i));
        let v = digits_value(s.take(i), radix);
        assert(v * radix >= v) by (nonlinear_arith)
            requires
                radix >= 1,
        ;
    } else {
        assert(s.take(i) =~= s);
    }
}

/// The value of `c` as a digit in base `radix`, if it is one.
pub fn radix_digit(c: char, radix: u64) -> (r: Option<u64>)
    requires
        radix == 10 || radix == 16,
    ensures
        r is Some <==> is_radix_digit(c, radix as nat),
        r matches Some(v) ==> v as nat == digit_value(c) && v < radix,
{
    if '0' <= c && c <= '9' {
        Some((c as u32 - '0' as u32) as u64)
    } else if radix == 16 && 'a' <= c && c <= 'f' {
        Some((c as u32 - 'a' as u32 + 10) as u64)
    } else if radix == 16 && 'A' <= c && c <= 'F' {
        Some((c as u32 - 'A' as u32 + 10) as u64)
    } else {
        None
    }
}

/// One step of a digit accumulation that stays within `max`.
pub fn accumulate_digit(acc: u64, dv: u64, radix: u64, max: u64) -> (r: Option<u64>)
    requires
        radix > 0,
        acc <= max,
    ensures
        r matches Some(v) ==> v as int == acc * radix + dv && v <= max,
        r is None ==> acc * radix + dv > max,
{
    if dv > max {
        assert(acc * radix + dv > max) by (nonlinear_arith)
            requires
                dv > max,
                radix > 0,
        ;
        return None;
    }
    let q = (max - dv) / radix;
    if acc > q {
        assert(acc * radix + dv > max) by (nonlinear_arith)
            requires
                acc > q,
                q == (max - dv) as int / radix as int,
                radix > 0,
                dv <= max,
        ;
        return None;
    }
    assert(acc * radix + dv <= max) by (nonlinear_arith)
        requires
            acc <= q,
            q == (max - dv) as int / radix as int,
            dv <= max,
            radix > 0,
    ;
    Some(acc * radix + dv)
}

/// Parses `s` as an unsigned integer in base `radix` no larger than `max`.
pub fn parse_unsigned_chars(s: &[char], radix: u64, max: u64) -> (r: Option<u64>)
    requires
        radix == 10 || radix == 16,
    ensures
        r matches Some(v) ==> parse_unsigned(s@, radix as nat, max as nat) == Some(v as nat),
        r is None ==> parse_unsigned(s@, radix as nat, max as nat) is None,
{
    if s.len() == 0 {
        return None;
    }
    let start: usize = if s[0] == '+' {
        1
    } else {
        0
    };
    let ghost d = if s@[0] == '+' {
        s@.drop_first()
    } else {
        s@
    };
    assert(d =~= s@.skip(start as int));
    if start == s.len() {
        return None;
    }
    let mut acc: u64 = 0;
    let mut i = start;
    while i < s.len()
        invariant
            start <= i <= s.len(),
            d == s@.skip(start as int),
            s@.len() > 0,
            d == (if s@[0] == '+' {
                s@.drop_first()
            } else {
                s@
            }),
            d.len() > 0,
            radix == 10 || radix == 16,
            acc as nat == digits_value(d.take(i - start), radix as nat),
            acc <= max,
            all_radix_digits(d.take(i - start), radix as nat),
        decreases s.len() - i,
    {
        let c = s[i];
        let ghost pre = d.take(i - start);
        let ghost pre1 = d.take(i - start + 1);
        assert(pre1.drop_last() =~= pre);
        assert(pre1.last() == c);
        assert(d[i - start] == c);
        let dv = match radix_digit(c, radix) {
            Some(v) => v,
            None => {
                assert(!is_radix_digit(d[i - start], radix as nat));
                return None;
            },
        };
        match accumulate_digit(acc, dv, radix, max) {
            Some(v) => {
                acc = v;
            },
            None => {
                proof {
                    if all_radix_digits(d, radix as nat) {
                        lemma_digits_prefix_le(d, radix as nat, i - start + 1);
                    }
                }
                return None;
            },
        }
        assert(all_radix_digits(pre1, radix as nat)) by {
            assert forall|k: int| 0 <= k < pre1.len() implies is_radix_digit(
                #[trigger] pre1[k],
                radix as nat,
            ) by {
                if k < pre.len() {
                    assert(pre1[k] == pre[k]);
                }
            }
        }
        i += 1;
    }
    assert(d.take(i - start) =~= d);
    Some(acc)
}

/// `str::parse::<u32>`.
pub fn parse_u32_chars(s: &[char]) -> (r: Option<u32>)
    ensures
        r matches Some(v) ==> parse_unsigned(s@, 10, u32::MAX as nat) == Some(v as nat),
        r is None ==> parse_unsigned(s@, 10, u32::MAX as nat) is None,
{
    match parse_unsigned_chars(s, 10, u32::MAX as u64) {
        Some(v) => Some(v as u32),
        None => None,
    }
}

/// `str::parse::<u16>`.
pub fn parse_u16_chars(s: &[char]) -> (r: Option<u16>)
    ensures
        r matches Some(v) ==> parse_unsigned(s@, 10, u16::MAX as nat) == Some(v as nat),
        r is None ==> parse_unsigned(s@, 10, u16::MAX as nat) is None,
{
    match parse_unsigned_chars(s, 10, u16::MAX as u64) {
        Some(v) => Some(v as u16),
        None => None,
    }
}

/// `str::parse::<u64>`.
pub fn parse_u64_chars(s: &[char]) -> (r: Option<u64>)
    ensures
        r matches Some(v) ==> parse_unsigned(s@, 10, u64::MAX as nat) == Some(v as nat),
        r is None ==> parse_unsigned(s@, 10, u64::MAX as nat) is None,
{
    parse_unsigned_chars(s, 10, u64::MAX)
}

/// `str::parse::<i64>`: an optional sign, then at least one decimal digit,
/// and a value that fits.
pub open spec fn parse_i64_spec(s: Seq<char>) -> Option<int> {
    if s.len() == 0 {
        None
    } else {
        let d = if s[0] == '-' || s[0] == '+' {
            s.drop_first()
        } else {
            s
        };
        if d.len() == 0 || !all_radix_digits(d, 10) {
            None
        } else if s[0] == '-' {
            if digits_value(d, 10) <= 0x8000_0000_0000_0000 {
                Some(-digits_value(d, 10))
            } else {
                None
            }
        } else if digits_value(d, 10) <= 0x7fff_ffff_ffff_ffff {
            Some(digits_value(d, 10) as int)
        } else {
            None
        }
    }
}

/// `str::parse::<i64>`.
pub fn parse_i64_chars(s: &[char]) -> (r: Option<i64>)
    ensures
        match r {
            Some(v) => parse_i64_spec(s@) == Some(v as int),
            None => parse_i64_spec(s@) is None,
        },
{
    if s.len() == 0 {
        return None;
    }
    let neg = s[0] == '-';
    let start: usize = if s[0] == '-' || s[0] == '+' {
        1
    } else {
        0
    };
    let d = slice_chars(s, start, s.len());
    assert(d@ =~= (if s@[0] == '-' || s@[0] == '+' {
        s@.drop_first()
    } else {
        s@
    }));
    if d.len() == 0 || d[0] == '+' {
        return None;
    }
    let max: u64 = if neg {
        0x8000_0000_0000_0000
    } else {
        0x7fff_ffff_ffff_ffff
    };
    assert(parse_unsigned(d@, 10, max as nat) == (if all_radix_digits(d@, 10) && digits_value(
        d@,
        10,
    ) <= max {
        Some(digits_value(d@, 10))
    } else {
        None
    }));
    match parse_unsigned_chars(&d, 10, max) {
        Some(v) => {
            if neg {
                if v == 0x8000_0000_0000_0000 {
                    Some(i64::MIN)
                } else {
                    Some(-(v as i64))
                }
            } else {
                Some(v as i64)
            }
        },
        None => None,
    }
}

/// The ASCII digit for `d < 10`.
pub open spec fn digit_char(d: nat) -> char {
    ((d + 48) as u32) as char
}

/// The decimal representation of `n`, as `format!("{n}")` writes it.
pub open spec fn decimal(n: nat) -> Seq<char>
    decreases n,
{
    if n < 10 {
        seq![digit_char(n)]
    } else {
        decimal(n / 10).push(digit_char(n % 10))
    }
}

/// The decimal representation of `n`.
pub fn decimal_chars(n: u64) -> (r: Vec<char>)
    ensures
        r@ == decimal(n as nat),
    decreases n,
{
    let d = (n % 10) as u8;
    let c = char_from_ascii(d + 48);
    if n < 10 {
        let mut v: Vec<char> = Vec::new();
        v.push(c);
        assert(v@ =~= seq![digit_char(n as nat)]);
        v
    } else {
        let mut v = decimal_chars(n / 10);
        v.push(c);
        v
    }
}

// ---------------------------------------------------------------------------
// Order
// ---------------------------------------------------------------------------

/// The order of `str` (and of file names): lexicographic by code point.
pub open spec fn seq_lt(a: Seq<char>, b: Seq<char>) -> bool
    decreases a.len(),
{
    if a.len() == 0 {
        b.len() > 0
    } else if b.len() == 0 {
        false
    } else if a[0] != b[0] {
        (a[0] as u32) < (b[0] as u32)
    } else {
        seq_lt(a.drop_first(), b.drop_first())
    }
}

pub proof fn lemma_seq_lt_transitive(a: Seq<char>, b: Seq<char>, c: Seq<char>)
    requires
        seq_lt(a, b),
        seq_lt(b, c),
    ensures
        seq_lt(a, c),
    decreases a.len(),
{
    if a.len() > 0 && b.len() > 0 && c.len() > 0 && a[0] == b[0] && b[0] == c[0] {
        lemma_seq_lt_transitive(a.drop_first(), b.drop_first(), c.drop_first());
    }
}

pub proof fn lemma_seq_lt_irreflexive(a: Seq<char>)
    ensures
        !seq_lt(a, a),
    decreases a.len(),
{
    if a.len() > 0 {
        lemma_seq_lt_irreflexive(a.drop_first());
    }
}

pub fn chars_lt(a: &[char], b: &[char]) -> (r: bool)
    ensures
        r == seq_lt(a@, b@),
{
    let mut i: usize = 0;
    assert(a@.skip(0) =~= a@);
    assert(b@.skip(0) =~= b@);
    while i < a.len() && i < b.len() && a[i] == b[i]
        invariant
            0 <= i <= a@.len(),
            i <= b@.len(),
            seq_lt(a@, b@) == seq_lt(a@.skip(i as int), b@.skip(i as int)),
        decreases a.len() - i,
    {
        assert(a@.skip(i as int).drop_first() =~= a@.skip(i + 1));
        assert(b@.skip(i as int).drop_first() =~= b@.skip(i + 1));
        i += 1;
    }
    if i == a.len() {
        i < b.len()
    } else if i == b.len() {
        false
    } else {
        (a[i] as u32) < (b[i] as u32)
    }
}

// ---------------------------------------------------------------------------
// Paths
// ---------------------------------------------------------------------------

/// `dir` joined with the relative path `name`, as `Path::join` does it:
/// a separator is put between them unless `dir` is empty or ends in one.
pub open spec fn join_path(dir: Seq<char>, name: Seq<char>) -> Seq<char> {
    if dir.len() == 0 {
        name
    } else if dir.last() == '/' {
        dir + name
    } else {
        dir + seq!['/'] + name
    }
}

pub fn join_path_chars(dir: &[char], name: &[char]) -> (r: Vec<char>)
    ensures
        r@ == join_path(dir@, name@),
{
    if dir.len() == 0 {
        slice_chars(name, 0, name.len())
    } else if dir[dir.len() - 1] == '/' {
        concat(dir, name)
    } else {
        let mut d = slice_chars(dir, 0, dir.len());
        d.push('/');
        let r = concat(&d, name);
        assert(dir@.subrange(0, dir@.len() as int) =~= dir@);
        r
    }
}

/// The pieces of a path that `Path::components` yields as normal
/// components (and the root): the non-empty runs between `/`, without `.`.
pub open spec fn drop_dots(s: Seq<Seq<char>>) -> Seq<Seq<char>>
    decreases s.len(),
{
    if s.len() == 0 {
        seq![]
    } else {
        let r = drop_dots(s.drop_last());
        if s.last() == "."@ {
            r
        } else {
            r.push(s.last())
        }
    }
}

pub open spec fn path_components(p: Seq<char>) -> Seq<Seq<char>> {
    drop_dots(runs(p, CharClass::NonSlash))
}

pub fn path_components_of(p: &[char]) -> (r: Vec<Vec<char>>)
    ensures
        r@.len() == path_components(p@).len(),
        forall|k: int| 0 <= k < r@.len() ==> (#[trigger] r@[k])@ == path_components(p@)[k],
{
    let pieces = runs_of(p, CharClass::NonSlash);
    let ghost all = runs(p@, CharClass::NonSlash);
    let dot = chars_of(".");
    let mut out: Vec<Vec<char>> = Vec::new();
    let mut i: usize = 0;
    while i < pieces.len()
        invariant
            0 <= i <= pieces@.len() == all.len(),
            all == runs(p@, CharClass::NonSlash),
            dot@ == "."@,
            forall|k: int| 0 <= k < pieces@.len() ==> (#[trigger] pieces@[k])@ == all[k],
            out@.len() == drop_dots(all.take(i as int)).len(),
            forall|k: int| 0 <= k < out@.len() ==> (#[trigger] out@[k])@ == drop_dots(all.take(i as int))[k],
        decreases pieces.len() - i,
    {
        assert(all.take(i + 1).drop_last() =~= all.take(i as int));
        assert(all.take(i + 1).last() == pieces@[i as int]@);
        if !chars_eq(&pieces[i], &dot) {
            out.push(slice_chars(&pieces[i], 0, pieces[i].len()));
            assert(pieces@[i as int]@.subrange(0, pieces@[i as int]@.len() as int) =~= pieces@[i as int]@);
        }
        i += 1;
    }
    assert(all.take(pieces.len() as int) =~= all);
    out
}

/// A path rebuilt from components: absolute when it started with `/`.
pub open spec fn path_from_components(absolute: bool, comps: Seq<Seq<char>>) -> Seq<char> {
    if absolute {
        seq!['/'] + join(comps, seq!['/'])
    } else {
        join(comps, seq!['/'])
    }
}

// ---------------------------------------------------------------------------
// First match in an index range (`Iterator::find` / `position`)
// ---------------------------------------------------------------------------

/// The first index in `[i, n)` satisfying `p`.
pub open spec fn first_match_from(i: int, n: int, p: spec_fn(int) -> bool) -> Option<int>
    decreases n - i,
{
    if i >= n {
        None
    } else if p(i) {
        Some(i)
    } else {
        first_match_from(i + 1, n, p)
    }
}

/// The first index in `[0, n)` satisfying `p`.
pub open spec fn first_match(n: int, p: spec_fn(int) -> bool) -> Option<int> {
    first_match_from(0, n, p)
}

/// Characterises `first_match_from` by the index it returns.
pub proof fn lemma_first_match_from(i: int, n: int, p: spec_fn(int) -> bool, k: int)
    requires
        i <= k,
        forall|j: int| i <= j < k ==> !#[trigger] p(j),
    ensures
        k < n && p(k) ==> first_match_from(i, n, p) == Some(k),
        k >= n ==> first_match_from(i, n, p) is None,
    decreases k - i,
{
    if i < k && i < n {
        lemma_first_match_from(i + 1, n, p, k);
    }
}

/// What `first_match` returns, stated by its properties.
pub proof fn lemma_first_match_props(n: int, p: spec_fn(int) -> bool)
    ensures
        first_match(n, p) matches Some(k) ==> 0 <= k < n && p(k) && forall|j: int|
            0 <= j < k ==> !#[trigger] p(j),
        first_match(n, p) is None ==> forall|j: int| 0 <= j < n ==> !#[trigger] p(j),
{
    lemma_first_match_from_props(0, n, p);
}

pub proof fn lemma_first_match_from_props(i: int, n: int, p: spec_fn(int) -> bool)
    ensures
        first_match_from(i, n, p) matches Some(k) ==> i <= k < n && p(k) && forall|j: int|
            i <= j < k ==> !#[trigger] p(j),
        first_match_from(i, n, p) is None ==> forall|j: int| i <= j < n ==> !#[trigger] p(j),
    decreases n - i,
{
    if i < n && !p(i) {
        lemma_first_match_from_props(i + 1, n, p);
    }
}

} // verus!
