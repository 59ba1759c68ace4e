//! Byte-sequence helpers: copying, searching, and fixed-width integers in
//! either byte order.

use vstd::prelude::*;

verus! {

/// The bytes of `v[from..to]` as a new vector.
pub fn slice_bytes(v: &[u8], from: usize, to: usize) -> (r: Vec<u8>)
    requires
        from <= to <= v.len(),
    ensures
        r@ == v@.subrange(from as int, to as int),
{
    let mut out: Vec<u8> = Vec::new();
    let mut i = from;
    while i < to
        invariant
            from <= i <= to <= v.len(),
            out@ == v@.subrange(from as int, i as int),
        decreases to - i,
    {
        out.push(v[i]);
        assert(v@.subrange(from as int, i as int + 1) =~= v@.subrange(from as int, i as int).push(
            v@[i as int],
        ));
        i += 1;
    }
    out
}

/// Appends the bytes of `b` to `v`.
pub fn append_bytes(v: &mut Vec<u8>, b: &[u8])
    ensures
        final(v)@ == old(v)@ + b@,
{
    let ghost start = v@;
    let mut i: usize = 0;
    while i < b.len()
        invariant
            0 <= i <= b.len(),
            v@ == start + b@.take(i as int),
        decreases b.len() - i,
    {
        v.push(b[i]);
        assert(start + b@.take(i as int + 1) =~= (start + b@.take(i as int)).push(b@[i as int]));
        i += 1;
    }
    assert(b@.take(b.len() as int) =~= b@);
}

/// Whether `n` occurs in `s` at position `i`.
pub open spec fn bytes_match_at(s: Seq<u8>, n: Seq<u8>, i: int) -> bool {
    0 <= i && i + n.len() <= s.len() && s.subrange(i, i + n.len()) == n
}

/// The first position of `n` in `s` (a window of `n.len()` bytes equal to `n`).
pub open spec fn find_bytes_spec(s: Seq<u8>, n: Seq<u8>) -> Option<int> {
    crate::text::first_match(s.len() - n.len() + 1, |i: int| bytes_match_at(s, n, i))
}

/// What a found position of `n` in `s` is.
pub proof fn lemma_find_bytes_found(s: Seq<u8>, n: Seq<u8>)
    ensures
        find_bytes_spec(s, n) matches Some(i) ==> 0 <= i && i + n.len() <= s.len() && s.subrange(
            i,
            i + n.len(),
        ) == n,
{
    crate::text::lemma_first_match_props(s.len() - n.len() + 1, |i: int| bytes_match_at(s, n, i));
}

pub fn bytes_match_at_exec(s: &[u8], n: &[u8], i: usize) -> (r: bool)
    ensures
        r == bytes_match_at(s@, n@, i as int),
{
    if i > s.len() || n.len() > s.len() - i {
        return false;
    }
    let mut k: usize = 0;
    while k < n.len()
        invariant
            i + n.len() <= s.len(),
            0 <= k <= n.len(),
            forall|j: int| 0 <= j < k ==> s@[i + j] == n@[j],
        decreases n.len() - k,
    {
        if s[i + k] != n[k] {
            assert(s@.subrange(i as int, i + n.len())[k as int] != n@[k as int]);
            return false;
        }
        k += 1;
    }
    assert(s@.subrange(i as int, i + n.len()) =~= n@);
    true
}

/// The first position of `needle` in `haystack`.
pub fn find_bytes(haystack: &[u8], needle: &[u8]) -> (r: Option<usize>)
    ensures
        match r {
            Some(i) => find_bytes_spec(haystack@, needle@) == Some(i as int),
            None => find_bytes_spec(haystack@, needle@) is None,
        },
{
    let ghost p = |i: int| bytes_match_at(haystack@, needle@, i);
    if needle.len() > haystack.len() {
        proof {
            crate::text::lemma_first_match_from(0, haystack@.len() - needle@.len() + 1, p, 0);
        }
        return None;
    }
    let last = haystack.len() - needle.len();
    let mut i: usize = 0;
    loop
        invariant
            0 <= i <= last + 1,
            last == haystack@.len() - needle@.len(),
            p == (|i: int| bytes_match_at(haystack@, needle@, i)),
            forall|j: int| 0 <= j < i ==> !#[trigger] p(j),
        decreases last + 1 - i,
    {
        if i > last {
            proof {
                crate::text::lemma_first_match_from(0, last + 1, p, i as int);
            }
            return None;
        }
        if bytes_match_at_exec(haystack, needle, i) {
            proof {
                crate::text::lemma_first_match_from(0, last + 1, p, i as int);
            }
            return Some(i);
        }
        if i == last {
            proof {
                crate::text::lemma_first_match_from(0, last + 1, p, i + 1);
            }
            return None;
        }
        i += 1;
    }
}

/// The little-endian value of four bytes.
pub open spec fn le32(b0: u8, b1: u8, b2: u8, b3: u8) -> u32 {
    (b0 as int + 256 * b1 as int + 65536 * b2 as int + 16777216 * b3 as int) as u32
}

/// The value of the four bytes of `s` at `i`, in the given byte order.
pub open spec fn word_at(s: Seq<u8>, i: int, little: bool) -> u32 {
    if little {
        le32(s[i], s[i + 1], s[i + 2], s[i + 3])
    } else {
        le32(s[i + 3], s[i + 2], s[i + 1], s[i])
    }
}

/// The four bytes of `v`, in the given byte order.
pub open spec fn word_bytes(v: u32, little: bool) -> Seq<u8> {
    let b0 = (v % 256) as u8;
    let b1 = ((v / 256) % 256) as u8;
    let b2 = ((v / 65536) % 256) as u8;
    let b3 = (v / 16777216) as u8;
    if little {
        seq![b0, b1, b2, b3]
    } else {
        seq![b3, b2, b1, b0]
    }
}

pub proof fn lemma_word_roundtrip(v: u32, little: bool)
    ensures
        word_bytes(v, little).len() == 4,
        word_at(word_bytes(v, little), 0, little) == v,
{
    let b0 = (v % 256) as u8;
    let b1 = ((v / 256) % 256) as u8;
    let b2 = ((v / 65536) % 256) as u8;
    let b3 = (v / 16777216) as u8;
    assert(b0 as int + 256 * b1 as int + 65536 * b2 as int + 16777216 * b3 as int == v) by (
    nonlinear_arith)
        requires
            b0 == v % 256,
            b1 == (v / 256) % 256,
            b2 == (v / 65536) % 256,
            b3 == v / 16777216,
            v <= u32::MAX,
    ;
}

/// The value of the four bytes of `s` at `i`, in the given byte order.
pub fn read_word(s: &[u8], i: usize, little: bool) -> (r: u32)
    requires
        i + 4 <= s.len(),
    ensures
        r == word_at(s@, i as int, little),
{
    let (b0, b1, b2, b3) = if little {
        (s[i], s[i + 1], s[i + 2], s[i + 3])
    } else {
        (s[i + 3], s[i + 2], s[i + 1], s[i])
    };
    b0 as u32 + 256 * (b1 as u32) + 65536 * (b2 as u32) + 16777216 * (b3 as u32)
}

/// The four bytes of `v`, in the given byte order.
pub fn write_word(out: &mut Vec<u8>, v: u32, little: bool)
    ensures
        final(out)@ == old(out)@ + word_bytes(v, little),
{
    let b0 = (v % 256) as u8;
    let b1 = ((v / 256) % 256) as u8;
    let b2 = ((v / 65536) % 256) as u8;
    let b3 = (v / 16777216) as u8;
    if little {
        out.push(b0);
        out.push(b1);
        out.push(b2);
        out.push(b3);
    } else {
        out.push(b3);
        out.push(b2);
        out.push(b1);
        out.push(b0);
    }
    assert(final(out)@ =~= old(out)@ + word_bytes(v, little));
}

/// The value of the eight bytes of `s` at `i`, in the given byte order.
pub open spec fn dword_at(s: Seq<u8>, i: int, little: bool) -> u64 {
    if little {
        (word_at(s, i, true) as int + 0x1_0000_0000 * word_at(s, i + 4, true) as int) as u64
    } else {
        (word_at(s, i + 4, false) as int + 0x1_0000_0000 * word_at(s, i, false) as int) as u64
    }
}

/// The value of the eight bytes of `s` at `i`, in the given byte order.
pub fn read_dword(s: &[u8], i: usize, little: bool) -> (r: u64)
    requires
        i + 8 <= s.len(),
    ensures
        r == dword_at(s@, i as int, little),
{
    let (lo, hi) = if little {
        (read_word(s, i, true), read_word(s, i + 4, true))
    } else {
        (read_word(s, i + 4, false), read_word(s, i, false))
    };
    let l = lo as u64;
    let h = hi as u64;
    assert((h << 32u64) | l == l + 0x1_0000_0000 * h) by (bit_vector)
        requires
            h <= 0xffff_ffff,
            l <= 0xffff_ffff,
    ;
    (h << 32u64) | l
}

/// `String::from_utf8`.
#[verifier::external_body]
pub(crate) fn string_from_utf8(bytes: Vec<u8>) -> (r: Option<String>)
    ensures
        r is Some <==> vstd::utf8::valid_utf8(bytes@),
        r matches Some(s) ==> s@ == vstd::utf8::decode_utf8(bytes@),
{
    String::from_utf8(bytes).ok()
}

/// The text `String::from_utf8_lossy` makes of `bytes`.
pub uninterp spec fn utf8_lossy(bytes: Seq<u8>) -> Seq<char>;

/// `String::from_utf8_lossy`: the text of `bytes`, with every invalid
/// sequence replaced by U+FFFD; bytes that are valid UTF-8 decode as they
/// are.
#[verifier::external_body]
pub(crate) fn string_from_utf8_lossy(bytes: &[u8]) -> (r: String)
    ensures
        r@ == utf8_lossy(bytes@),
        vstd::utf8::valid_utf8(bytes@) ==> r@ == vstd::utf8::decode_utf8(bytes@),
{
    String::from_utf8_lossy(bytes).into_owned()
}

/// `u32::from_ne_bytes`: the value of four bytes in the byte order of the
/// machine, which is one of the two.
#[verifier::external_body]
fn u32_from_ne_bytes(b: [u8; 4]) -> (r: u32)
    ensures
        r == le32(b@[0], b@[1], b@[2], b@[3]) || r == le32(b@[3], b@[2], b@[1], b@[0]),
{
    u32::from_ne_bytes(b)
}

/// Whether this machine stores integers little-endian.
pub fn native_little_endian() -> bool {
    u32_from_ne_bytes([1, 0, 0, 0]) == 1
}

} // verus!
