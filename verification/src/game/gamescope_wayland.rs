//! The Wayland wire format spoken with Gamescope's `gamescope_control`
//! interface: framing of messages, the `wl_registry.global` event, and the
//! app performance statistics that carry frame times.
//!
//! Integers on the wire are in the byte order of the machine; every
//! function here states its result for both orders, and the functions
//! without an explicit order use the machine's.

use vstd::prelude::*;
use vstd::string::StringSliceAdditionalSpecFns;

use crate::bytes::{
    string_from_utf8,
    append_bytes, lemma_word_roundtrip, native_little_endian, read_word, slice_bytes, word_at,
    word_bytes, write_word,
};

verus! {

broadcast use vstd::string::group_string_axioms;

pub const WL_DISPLAY_ID: u32 = 1;
pub const WL_REGISTRY_ID: u32 = 2;
pub const WL_INIT_SYNC_ID: u32 = 3;
pub const GAMESCOPE_CONTROL_ID: u32 = 4;
pub const WL_DISPLAY_ERROR: u16 = 0;
pub const WL_DISPLAY_GET_REGISTRY: u16 = 1;
pub const WL_DISPLAY_SYNC: u16 = 0;
pub const WL_REGISTRY_GLOBAL: u16 = 0;
pub const WL_REGISTRY_BIND: u16 = 0;
pub const WL_CALLBACK_DONE: u16 = 0;
pub const GAMESCOPE_CONTROL_REQUEST_APP_PERFORMANCE_STATS: u16 = 6;
pub const GAMESCOPE_CONTROL_APP_PERFORMANCE_STATS: u16 = 3;
pub const GAMESCOPE_CONTROL_MIN_VERSION: u32 = 6;
pub const GAMESCOPE_CONTROL_INTERFACE: &'static str = "gamescope_control";

#[derive(Debug, Clone, Copy, PartialEq, Eq, Structural)]
pub struct GamescopeWaylandFrameSample {
    pub app_id: u32,
    pub visible_frametime_ns: u64,
}

#[derive(Debug, Clone, Copy, PartialEq, Eq, Structural)]
pub struct GamescopeWaylandReadResult {
    pub samples_read: usize,
    pub dropped_zero: u64,
    pub dropped_too_large: u64,
    pub dropped_wrong_session: u64,
}

impl Default for GamescopeWaylandReadResult {
    fn default() -> (r: Self)
        ensures
            r.samples_read == 0 && r.dropped_zero == 0 && r.dropped_too_large == 0
                && r.dropped_wrong_session == 0,
    {
        GamescopeWaylandReadResult {
            samples_read: 0,
            dropped_zero: 0,
            dropped_too_large: 0,
            dropped_wrong_session: 0,
        }
    }
}

/// A `wl_registry.global` event: a global object the compositor offers.
#[derive(Debug, Clone, PartialEq, Eq)]
pub struct RegistryGlobal {
    pub name: u32,
    pub interface: String,
    pub version: u32,
}

/// One Wayland message: object, opcode, and argument bytes.
#[derive(Debug, Clone, PartialEq, Eq)]
pub struct WaylandMessage {
    pub object_id: u32,
    pub opcode: u16,
    pub payload: Vec<u8>,
}

/// The ways a Wayland message can be malformed.
#[derive(Debug, Clone, Copy, PartialEq, Eq, Structural)]
pub enum WaylandError {
    /// A header whose size is below the 8 bytes of the header itself.
    InvalidMessageSize,
    /// A message longer than the 16-bit size field can hold.
    MessageTooLarge,
}

/// The 64-bit frame time from its low and high 32-bit halves.
pub open spec fn frametime_spec(lo: u32, hi: u32) -> u64 {
    (hi as int * 0x1_0000_0000 + lo as int) as u64
}

pub fn frametime_ns_from_parts(lo: u32, hi: u32) -> (r: u64)
    ensures
        r == frametime_spec(lo, hi),
        r as int == hi as int * 0x1_0000_0000 + lo as int,
{
    let h = hi as u64;
    let l = lo as u64;
    assert((h << 32u64) | l == h * 0x1_0000_0000 + l) by (bit_vector)
        requires
            h <= 0xffff_ffff,
            l <= 0xffff_ffff,
    ;
    (h << 32u64) | l
}

/// `value` rounded up to a multiple of 4, unless that overflows `usize`.
pub open spec fn align4_spec(value: usize) -> Option<usize> {
    if value + 3 <= usize::MAX {
        Some(((value + 3) / 4 * 4) as usize)
    } else {
        None
    }
}

pub fn align_to_4(value: usize) -> (r: Option<usize>)
    ensures
        r == align4_spec(value),
{
    match value.checked_add(3) {
        Some(v) => {
            assert(v & !3usize == v / 4 * 4) by (bit_vector);
            Some(v & !3usize)
        },
        None => None,
    }
}

/// The `u32` at `off`, and the offset after it.
pub open spec fn read_u32_spec(p: Seq<u8>, off: int, little: bool) -> Option<(u32, int)> {
    if off + 4 <= p.len() {
        Some((word_at(p, off, little), off + 4))
    } else {
        None
    }
}

pub fn read_u32(payload: &[u8], offset: &mut usize, little: bool) -> (r: Option<u32>)
    ensures
        match read_u32_spec(payload@, *old(offset) as int, little) {
            Some((v, next)) => r == Some(v) && *final(offset) as int == next,
            None => r is None && *final(offset) == *old(offset),
        },
{
    let plen = payload.len();
    let end = match offset.checked_add(4) {
        Some(e) => e,
        None => {
            return None;
        },
    };
    if end > plen {
        return None;
    }
    let v = read_word(payload, *offset, little);
    *offset = end;
    Some(v)
}

/// A string argument at `off`: a length (counting a terminating NUL), the
/// bytes, padding to a multiple of 4. Gives the text (if it is UTF-8 once
/// the trailing NUL is stripped) and the offset where reading stopped.
pub open spec fn read_string_spec(p: Seq<u8>, off: int, little: bool) -> (Option<Seq<char>>, int) {
    match read_u32_spec(p, off, little) {
        None => (None, off),
        Some((len, off1)) => {
            if len == 0 || off1 + len > p.len() {
                (None, off1)
            } else {
                let end = off1 + len;
                let bytes = p.subrange(off1, end);
                let text_bytes = if bytes.last() == 0 {
                    bytes.drop_last()
                } else {
                    bytes
                };
                match align4_spec(end as usize) {
                    None => (None, off1),
                    Some(next) => (
                        if vstd::utf8::valid_utf8(text_bytes) {
                            Some(vstd::utf8::decode_utf8(text_bytes))
                        } else {
                            None
                        },
                        next as int,
                    ),
                }
            }
        },
    }
}

pub open spec fn opt_string_view(o: Option<String>) -> Option<Seq<char>> {
    match o {
        Some(s) => Some(s@),
        None => None,
    }
}

pub fn read_string(payload: &[u8], offset: &mut usize, little: bool) -> (r: Option<String>)
    ensures
        opt_string_view(r) == read_string_spec(payload@, *old(offset) as int, little).0,
        *final(offset) as int == read_string_spec(payload@, *old(offset) as int, little).1,
{
    let plen = payload.len();
    let len = match read_u32(payload, offset, little) {
        Some(l) => l as usize,
        None => {
            return None;
        },
    };
    if len == 0 {
        return None;
    }
    let end = match offset.checked_add(len) {
        Some(e) => e,
        None => {
            return None;
        },
    };
    if end > payload.len() {
        return None;
    }
    let bytes = slice_bytes(payload, *offset, end);
    let text_bytes = if bytes[bytes.len() - 1] == 0 {
        slice_bytes(&bytes, 0, bytes.len() - 1)
    } else {
        bytes
    };
    assert(text_bytes@ =~= (if payload@.subrange(*old(offset) + 4, end as int).last() == 0 {
        payload@.subrange(*old(offset) + 4, end as int).drop_last()
    } else {
        payload@.subrange(*old(offset) + 4, end as int)
    }));
    let next = match align_to_4(end) {
        Some(n) => n,
        None => {
            return None;
        },
    };
    *offset = next;
    string_from_utf8(text_bytes)
}

/// The `wl_registry.global` event in `payload`: name, interface, version.
pub open spec fn registry_global_spec(p: Seq<u8>, little: bool) -> Option<(u32, Seq<char>, u32)> {
    match read_u32_spec(p, 0, little) {
        None => None,
        Some((name, off1)) => {
            let (iface, off2) = read_string_spec(p, off1, little);
            match iface {
                None => None,
                Some(i) => match read_u32_spec(p, off2, little) {
                    None => None,
                    Some((version, _)) => Some((name, i, version)),
                },
            }
        },
    }
}

pub open spec fn global_view(g: Option<RegistryGlobal>) -> Option<(u32, Seq<char>, u32)> {
    match g {
        Some(g) => Some((g.name, g.interface@, g.version)),
        None => None,
    }
}

pub fn parse_registry_global_with(payload: &[u8], little: bool) -> (r: Option<RegistryGlobal>)
    ensures
        global_view(r) == registry_global_spec(payload@, little),
{
    let mut offset: usize = 0;
    let name = match read_u32(payload, &mut offset, little) {
        Some(v) => v,
        None => {
            return None;
        },
    };
    let interface = match read_string(payload, &mut offset, little) {
        Some(s) => s,
        None => {
            return None;
        },
    };
    let version = match read_u32(payload, &mut offset, little) {
        Some(v) => v,
        None => {
            return None;
        },
    };
    Some(RegistryGlobal { name, interface, version })
}

/// The `wl_registry.global` event in `payload`, in the machine's byte order.
pub fn parse_registry_global(payload: &[u8]) -> (r: Option<RegistryGlobal>)
    ensures
        global_view(r) == registry_global_spec(payload@, true) || global_view(r)
            == registry_global_spec(payload@, false),
{
    parse_registry_global_with(payload, native_little_endian())
}

/// The app performance statistics event in `payload`: app id and frame time.
pub open spec fn app_performance_spec(p: Seq<u8>, little: bool) -> Option<(u32, u64)> {
    if p.len() >= 12 {
        Some(
            (
                word_at(p, 0, little),
                frametime_spec(word_at(p, 4, little), word_at(p, 8, little)),
            ),
        )
    } else {
        None
    }
}

pub fn parse_app_performance_stats_with(payload: &[u8], little: bool) -> (r: Option<(u32, u64)>)
    ensures
        r == app_performance_spec(payload@, little),
{
    let mut offset: usize = 0;
    let app_id = match read_u32(payload, &mut offset, little) {
        Some(v) => v,
        None => {
            return None;
        },
    };
    let lo = match read_u32(payload, &mut offset, little) {
        Some(v) => v,
        None => {
            return None;
        },
    };
    let hi = match read_u32(payload, &mut offset, little) {
        Some(v) => v,
        None => {
            return None;
        },
    };
    Some((app_id, frametime_ns_from_parts(lo, hi)))
}

/// The app performance statistics event in `payload`, in the machine's byte
/// order.
pub fn parse_app_performance_stats(payload: &[u8]) -> (r: Option<(u32, u64)>)
    ensures
        r == app_performance_spec(payload@, true) || r == app_performance_spec(payload@, false),
{
    parse_app_performance_stats_with(payload, native_little_endian())
}

/// `s` followed by zero bytes up to a multiple of 4.
pub open spec fn pad4(s: Seq<u8>) -> Seq<u8> {
    let pad = if s.len() % 4 == 0 {
        0
    } else {
        4 - s.len() % 4
    };
    s + Seq::new(pad as nat, |i: int| 0u8)
}

/// The length field of a string argument: its bytes plus the NUL.
pub open spec fn string_len_field(n: nat) -> u32 {
    (if n == usize::MAX {
        usize::MAX as int
    } else {
        (n + 1) as int
    }) as u32
}

/// Appends a string argument: length, bytes, NUL, padding to 4 bytes.
#[verifier::rlimit(30)]
pub fn push_wayland_string_with(body: &mut Vec<u8>, value: &str, little: bool)
    ensures
        final(body)@ == pad4(
            old(body)@ + word_bytes(string_len_field(value.spec_bytes().len()), little)
                + value.spec_bytes() + seq![0u8],
        ),
{
    let bytes = value.as_bytes();
    let len = value.len().saturating_add(1) as u32;
    write_word(body, len, little);
    append_bytes(body, bytes);
    body.push(0);
    let ghost base = body@;
    while body.len() % 4 != 0
        invariant
            base.len() <= body@.len() < base.len() + 4,
            body@.subrange(0, base.len() as int) == base,
            forall|i: int| base.len() <= i < body@.len() ==> body@[i] == 0,
            body@.len() % 4 != 0 ==> body@.len() - base.len() < (if base.len() % 4 == 0 {
                0
            } else {
                4 - base.len() % 4
            }),
            body@.len() - base.len() <= (if base.len() % 4 == 0 {
                0
            } else {
                4 - base.len() % 4
            }),
        decreases base.len() + 4 - body@.len(),
    {
        body.push(0);
    }
    assert(body@ =~= pad4(base));
}

/// Appends a string argument in the machine's byte order.
pub fn push_wayland_string(body: &mut Vec<u8>, value: &str)
    ensures
        final(body)@ == pad4(
            old(body)@ + word_bytes(string_len_field(value.spec_bytes().len()), true)
                + value.spec_bytes() + seq![0u8],
        ) || final(body)@ == pad4(
            old(body)@ + word_bytes(string_len_field(value.spec_bytes().len()), false)
                + value.spec_bytes() + seq![0u8],
        ),
{
    push_wayland_string_with(body, value, native_little_endian())
}


/// The bytes of one message: object id, then size and opcode in one word
/// (size in the high half), then the arguments.
pub open spec fn message_bytes(object_id: u32, opcode: u16, body: Seq<u8>, little: bool) -> Seq<u8> {
    word_bytes(object_id, little) + word_bytes(((8 + body.len()) * 65536 + opcode) as u32, little)
        + body
}

/// The framing of a message, refused when it does not fit the 16-bit size.
pub open spec fn encode_message_spec(object_id: u32, opcode: u16, body: Seq<u8>, little: bool) -> Result<Seq<u8>, WaylandError> {
    if 8 + body.len() > 0xffff {
        Err(WaylandError::MessageTooLarge)
    } else {
        Ok(message_bytes(object_id, opcode, body, little))
    }
}

pub open spec fn encoded_view(r: Result<Vec<u8>, WaylandError>) -> Result<Seq<u8>, WaylandError> {
    match r {
        Ok(v) => Ok(v@),
        Err(e) => Err(e),
    }
}

/// Frames a request for the socket.
pub fn encode_message_with(object_id: u32, opcode: u16, body: &[u8], little: bool) -> (r: Result<Vec<u8>, WaylandError>)
    ensures
        encoded_view(r) == encode_message_spec(object_id, opcode, body@, little),
{
    let size = 8usize.saturating_add(body.len());
    if size > 0xffff {
        return Err(WaylandError::MessageTooLarge);
    }
    let size32 = size as u32;
    let op32 = opcode as u32;
    assert((size32 << 16u32) | op32 == size32 * 65536 + op32) by (bit_vector)
        requires
            size32 <= 0xffff,
            op32 <= 0xffff,
    ;
    let size_opcode = (size32 << 16u32) | op32;
    let mut out: Vec<u8> = Vec::new();
    write_word(&mut out, object_id, little);
    write_word(&mut out, size_opcode, little);
    append_bytes(&mut out, body);
    Ok(out)
}

/// Frames a request in the machine's byte order.
pub fn encode_message(object_id: u32, opcode: u16, body: &[u8]) -> (r: Result<Vec<u8>, WaylandError>)
    ensures
        encoded_view(r) == encode_message_spec(object_id, opcode, body@, true) || encoded_view(r)
            == encode_message_spec(object_id, opcode, body@, false),
{
    encode_message_with(object_id, opcode, body, native_little_endian())
}

/// The first complete message at the front of `buf`: object id, opcode,
/// arguments and the bytes it takes; `None` while it is incomplete.
pub open spec fn pop_spec(buf: Seq<u8>, little: bool) -> Result<Option<(u32, u16, Seq<u8>, int)>, WaylandError> {
    if buf.len() < 8 {
        Ok(None)
    } else {
        let size_opcode = word_at(buf, 4, little);
        let size = size_opcode / 65536;
        let opcode = (size_opcode % 65536) as u16;
        if size < 8 {
            Err(WaylandError::InvalidMessageSize)
        } else if buf.len() < size {
            Ok(None)
        } else {
            Ok(Some((word_at(buf, 0, little), opcode, buf.subrange(8, size as int), size as int)))
        }
    }
}

/// Takes the first complete message off the front of `buffer`. An
/// incomplete message, or a malformed one, leaves the buffer as it was.
pub fn pop_message_with(buffer: &mut Vec<u8>, little: bool) -> (r: Result<Option<WaylandMessage>, WaylandError>)
    ensures
        match pop_spec(old(buffer)@, little) {
            Err(e) => r == Err::<Option<WaylandMessage>, WaylandError>(e) && final(buffer)@ == old(buffer)@,
            Ok(None) => r matches Ok(None) && final(buffer)@ == old(buffer)@,
            Ok(Some((object_id, opcode, payload, size))) => r matches Ok(Some(m)) && m.object_id == object_id
                && m.opcode == opcode && m.payload@ == payload && final(buffer)@ == old(buffer)@.subrange(
                size,
                old(buffer)@.len() as int,
            ),
        },
{
    if buffer.len() < 8 {
        return Ok(None);
    }
    let object_id = read_word(buffer.as_slice(), 0, little);
    let size_opcode = read_word(buffer.as_slice(), 4, little);
    assert(size_opcode & 0xffff == size_opcode % 65536 && size_opcode >> 16u32 == size_opcode / 65536) by (bit_vector);
    let opcode = (size_opcode & 0xffff) as u16;
    let size = (size_opcode >> 16u32) as usize;
    if size < 8 {
        return Err(WaylandError::InvalidMessageSize);
    }
    if buffer.len() < size {
        return Ok(None);
    }
    let payload = slice_bytes(buffer.as_slice(), 8, size);
    let rest = buffer.split_off(size);
    *buffer = rest;
    Ok(Some(WaylandMessage { object_id, opcode, payload }))
}

/// Takes the first complete message off `buffer`, in the machine's byte order.
pub fn pop_message(buffer: &mut Vec<u8>) -> (r: Result<Option<WaylandMessage>, WaylandError>)
    ensures
        exists|little: bool|
            match #[trigger] pop_spec(old(buffer)@, little) {
                Err(e) => r == Err::<Option<WaylandMessage>, WaylandError>(e) && final(buffer)@ == old(buffer)@,
                Ok(None) => r matches Ok(None) && final(buffer)@ == old(buffer)@,
                Ok(Some((object_id, opcode, payload, size))) => r matches Ok(Some(m)) && m.object_id
                    == object_id && m.opcode == opcode && m.payload@ == payload && final(buffer)@ == old(
                    buffer,
                )@.subrange(size, old(buffer)@.len() as int),
            },
{
    let little = native_little_endian();
    pop_message_with(buffer, little)
}

/// What is read back from a framed message: a message framed by
/// `encode_message_with` and followed by any bytes comes off the buffer
/// whole, with its object id, opcode and arguments, and leaves exactly the
/// bytes that followed it.
pub proof fn lemma_message_roundtrip(object_id: u32, opcode: u16, body: Seq<u8>, rest: Seq<u8>, little: bool)
    requires
        8 + body.len() <= 0xffff,
    ensures
        encode_message_spec(object_id, opcode, body, little) == Ok::<Seq<u8>, WaylandError>(
            message_bytes(object_id, opcode, body, little),
        ),
        pop_spec(message_bytes(object_id, opcode, body, little) + rest, little) == Ok::<
            Option<(u32, u16, Seq<u8>, int)>,
            WaylandError,
        >(Some((object_id, opcode, body, 8 + body.len() as int))),
        (message_bytes(object_id, opcode, body, little) + rest).subrange(
            8 + body.len() as int,
            (message_bytes(object_id, opcode, body, little) + rest).len() as int,
        ) == rest,
{
    let so: u32 = ((8 + body.len()) * 65536 + opcode) as u32;
    let m = message_bytes(object_id, opcode, body, little);
    let buf = m + rest;
    lemma_word_roundtrip(object_id, little);
    lemma_word_roundtrip(so, little);
    let w0 = word_bytes(object_id, little);
    let w1 = word_bytes(so, little);
    assert(buf.subrange(0, 4) =~= w0);
    assert(buf.subrange(4, 8) =~= w1);
    assert(word_at(buf, 0, little) == word_at(w0, 0, little));
    assert(word_at(buf, 4, little) == word_at(w1, 0, little));
    let n = 8 + body.len();
    assert(so / 65536 == n && so % 65536 == opcode) by (nonlinear_arith)
        requires
            so == n * 65536 + opcode,
            0 <= opcode < 65536,
    ;
    assert(buf.subrange(8, n as int) =~= body);
    assert(buf.subrange(n as int, buf.len() as int) =~= rest);
}


/// A `wl_registry.global` event's arguments: the name, the interface as a
/// string argument, and the version.
pub open spec fn global_payload(name: u32, iface: Seq<u8>, version: u32, little: bool) -> Seq<u8> {
    pad4(
        word_bytes(name, little) + word_bytes(string_len_field(iface.len()), little) + iface
            + seq![0u8],
    ) + word_bytes(version, little)
}

proof fn lemma_pad4(a: Seq<u8>)
    ensures
        pad4(a).len() == (a.len() + 3) / 4 * 4,
        pad4(a).subrange(0, a.len() as int) == a,
{
    assert(pad4(a).subrange(0, a.len() as int) =~= a);
}

proof fn lemma_word_in(full: Seq<u8>, w: Seq<u8>, at: int, little: bool)
    requires
        0 <= at,
        at + 4 <= full.len(),
        w.len() == 4,
        full.subrange(at, at + 4) == w,
    ensures
        word_at(full, at, little) == word_at(w, 0, little),
{
    assert(full[at] == w[0] && full[at + 1] == w[1] && full[at + 2] == w[2] && full[at + 3] == w[3]) by {
        assert(full.subrange(at, at + 4)[0] == full[at]);
        assert(full.subrange(at, at + 4)[1] == full[at + 1]);
        assert(full.subrange(at, at + 4)[2] == full[at + 2]);
        assert(full.subrange(at, at + 4)[3] == full[at + 3]);
    }
}

/// What is read back from a string argument: the arguments of a
/// `wl_registry.global` event written as `push_wayland_string_with` writes a
/// string parse back to the same name, interface text and version,
/// whatever bytes follow them.
#[verifier::spinoff_prover]
pub proof fn lemma_registry_global_roundtrip(name: u32, iface: Seq<char>, version: u32, rest: Seq<u8>, little: bool)
    requires
        vstd::utf8::encode_utf8(iface).len() + 1 <= u32::MAX,
        vstd::utf8::encode_utf8(iface).len() + 16 <= usize::MAX,
    ensures
        registry_global_spec(
            global_payload(name, vstd::utf8::encode_utf8(iface), version, little) + rest,
            little,
        ) == Some((name, iface, version)),
{
    let b = vstd::utf8::encode_utf8(iface);
    let n = b.len();
    let len_field = string_len_field(n);
    assert(len_field == n + 1);
    let wn = word_bytes(name, little);
    let wl = word_bytes(len_field, little);
    let wv = word_bytes(version, little);
    lemma_word_roundtrip(name, little);
    lemma_word_roundtrip(len_field, little);
    lemma_word_roundtrip(version, little);
    let a = wn + wl + b + seq![0u8];
    let p = pad4(a);
    lemma_pad4(a);
    let full = p + wv + rest;
    let padded: int = p.len() as int;
    assert(full.subrange(0, a.len() as int) =~= a) by {
        assert(full.subrange(0, a.len() as int) =~= p.subrange(0, a.len() as int));
    }
    assert(full.subrange(0, 4) =~= wn) by {
        assert(full.subrange(0, 4) =~= a.subrange(0, 4));
    }
    assert(full.subrange(4, 8) =~= wl) by {
        assert(full.subrange(4, 8) =~= a.subrange(4, 8));
    }
    lemma_word_in(full, wn, 0, little);
    lemma_word_in(full, wl, 4, little);
    let bytes = full.subrange(8, 9 + n as int);
    assert(bytes =~= b + seq![0u8]) by {
        assert(bytes =~= a.subrange(8, 9 + n as int));
    }
    assert(bytes.drop_last() =~= b);
    vstd::utf8::encode_utf8_valid_utf8(iface);
    vstd::utf8::encode_utf8_decode_utf8(iface);
    assert(align4_spec((9 + n) as usize) == Some(padded as usize));
    assert(full.subrange(padded, padded + 4) =~= wv);
    lemma_word_in(full, wv, padded, little);
    assert(read_string_spec(full, 4, little) == (Some(iface), padded));
}


/// What a message seen while connecting means to the connection.
#[derive(Debug, Clone, Copy, PartialEq, Eq, Structural)]
pub enum InitMessage {
    /// The display reported an error: connecting fails.
    DisplayError,
    /// `gamescope_control` at a version that is new enough is offered under
    /// this name: bind it.
    ControlGlobal(u32),
    /// The compositor answered the initial sync: every global has been seen.
    SyncDone,
    /// Anything else, which is ignored.
    Other,
}

pub open spec fn init_message_spec(object_id: u32, opcode: u16, payload: Seq<u8>, little: bool) -> InitMessage {
    if object_id == WL_DISPLAY_ID && opcode == WL_DISPLAY_ERROR {
        InitMessage::DisplayError
    } else if object_id == WL_REGISTRY_ID && opcode == WL_REGISTRY_GLOBAL {
        match registry_global_spec(payload, little) {
            Some((name, iface, version)) => if iface == GAMESCOPE_CONTROL_INTERFACE@ && version
                >= GAMESCOPE_CONTROL_MIN_VERSION {
                InitMessage::ControlGlobal(name)
            } else {
                InitMessage::Other
            },
            None => InitMessage::Other,
        }
    } else if object_id == WL_INIT_SYNC_ID && opcode == WL_CALLBACK_DONE {
        InitMessage::SyncDone
    } else {
        InitMessage::Other
    }
}

pub fn classify_init_message_with(message: &WaylandMessage, little: bool) -> (r: InitMessage)
    ensures
        r == init_message_spec(message.object_id, message.opcode, message.payload@, little),
{
    if message.object_id == WL_DISPLAY_ID && message.opcode == WL_DISPLAY_ERROR {
        InitMessage::DisplayError
    } else if message.object_id == WL_REGISTRY_ID && message.opcode == WL_REGISTRY_GLOBAL {
        match parse_registry_global_with(message.payload.as_slice(), little) {
            Some(global) => {
                let iface = crate::text::chars_of(global.interface.as_str());
                let wanted = crate::text::chars_of(GAMESCOPE_CONTROL_INTERFACE);
                if crate::text::chars_eq(&iface, &wanted) && global.version
                    >= GAMESCOPE_CONTROL_MIN_VERSION {
                    InitMessage::ControlGlobal(global.name)
                } else {
                    InitMessage::Other
                }
            },
            None => InitMessage::Other,
        }
    } else if message.object_id == WL_INIT_SYNC_ID && message.opcode == WL_CALLBACK_DONE {
        InitMessage::SyncDone
    } else {
        InitMessage::Other
    }
}

/// What a message seen while connecting means, in the machine's byte order.
pub fn classify_init_message(message: &WaylandMessage) -> (r: InitMessage)
    ensures
        r == init_message_spec(message.object_id, message.opcode, message.payload@, true) || r
            == init_message_spec(message.object_id, message.opcode, message.payload@, false),
{
    classify_init_message_with(message, native_little_endian())
}

/// The arguments of the `wl_registry.bind` request for `gamescope_control`:
/// the global's name, the interface, the version wanted and the new id.
pub fn bind_request_body_with(global_name: u32, little: bool) -> (r: Vec<u8>)
    ensures
        r@ == global_payload(
            global_name,
            GAMESCOPE_CONTROL_INTERFACE.spec_bytes(),
            GAMESCOPE_CONTROL_MIN_VERSION,
            little,
        ) + word_bytes(GAMESCOPE_CONTROL_ID, little),
{
    let mut body: Vec<u8> = Vec::new();
    write_word(&mut body, global_name, little);
    push_wayland_string_with(&mut body, GAMESCOPE_CONTROL_INTERFACE, little);
    write_word(&mut body, GAMESCOPE_CONTROL_MIN_VERSION, little);
    write_word(&mut body, GAMESCOPE_CONTROL_ID, little);
    assert(body@ =~= global_payload(
        global_name,
        GAMESCOPE_CONTROL_INTERFACE.spec_bytes(),
        GAMESCOPE_CONTROL_MIN_VERSION,
        little,
    ) + word_bytes(GAMESCOPE_CONTROL_ID, little));
    body
}

/// The `wl_registry.bind` request body, in the machine's byte order.
pub fn bind_request_body(global_name: u32) -> (r: Vec<u8>)
    ensures
        r@ == global_payload(
            global_name,
            GAMESCOPE_CONTROL_INTERFACE.spec_bytes(),
            GAMESCOPE_CONTROL_MIN_VERSION,
            true,
        ) + word_bytes(GAMESCOPE_CONTROL_ID, true) || r@ == global_payload(
            global_name,
            GAMESCOPE_CONTROL_INTERFACE.spec_bytes(),
            GAMESCOPE_CONTROL_MIN_VERSION,
            false,
        ) + word_bytes(GAMESCOPE_CONTROL_ID, false),
{
    bind_request_body_with(global_name, native_little_endian())
}

/// The request for app performance statistics that is in flight, if any.
#[derive(Debug, Clone, Copy, PartialEq, Eq, Structural)]
pub struct FrameRequestState {
    pub pending_app_id: Option<u32>,
}

impl FrameRequestState {
    pub fn new() -> (r: Self)
        ensures
            r.pending_app_id is None,
    {
        FrameRequestState { pending_app_id: None }
    }

    /// Whether statistics for `app_id` must be requested (again): none is
    /// in flight for that app.
    pub fn needs_request(&self, app_id: u32) -> (r: bool)
        ensures
            r == (self.pending_app_id != Some(app_id)),
    {
        match self.pending_app_id {
            Some(p) => p != app_id,
            None => true,
        }
    }

    /// Records that a request for `app_id` was sent.
    pub fn mark_requested(&mut self, app_id: u32)
        ensures
            final(self).pending_app_id == Some(app_id),
    {
        self.pending_app_id = Some(app_id);
    }

    /// Handles one message while frames are read for `current_app_id`:
    /// an app performance statistics event answers the request in flight
    /// for its app, and its frame time is kept, or counted as dropped for
    /// the wrong app, a zero time, or a time above `max_frame_time_ns`.
    /// Any other message changes nothing.
    pub fn handle_message_with(
        &mut self,
        current_app_id: u32,
        max_frame_time_ns: u64,
        message: &WaylandMessage,
        samples: &mut Vec<GamescopeWaylandFrameSample>,
        result: &mut GamescopeWaylandReadResult,
        little: bool,
    )
        ensures
            ({
                let stats = app_performance_spec(message.payload@, little);
                if message.object_id != GAMESCOPE_CONTROL_ID || message.opcode
                    != GAMESCOPE_CONTROL_APP_PERFORMANCE_STATS || stats is None {
                    &&& *final(self) == *old(self)
                    &&& final(samples)@ == old(samples)@
                    &&& *final(result) == *old(result)
                } else {
                    let (app_id, frametime_ns) = stats->0;
                    &&& final(self).pending_app_id == (if old(self).pending_app_id == Some(app_id) {
                        None
                    } else {
                        old(self).pending_app_id
                    })
                    &&& if app_id != current_app_id {
                        &&& final(samples)@ == old(samples)@
                        &&& *final(result) == (GamescopeWaylandReadResult {
                            dropped_wrong_session: old(result).dropped_wrong_session.saturating_add(1),
                            ..*old(result)
                        })
                    } else if frametime_ns == 0 {
                        &&& final(samples)@ == old(samples)@
                        &&& *final(result) == (GamescopeWaylandReadResult {
                            dropped_zero: old(result).dropped_zero.saturating_add(1),
                            ..*old(result)
                        })
                    } else if frametime_ns > max_frame_time_ns {
                        &&& final(samples)@ == old(samples)@
                        &&& *final(result) == (GamescopeWaylandReadResult {
                            dropped_too_large: old(result).dropped_too_large.saturating_add(1),
                            ..*old(result)
                        })
                    } else {
                        &&& final(samples)@ == old(samples)@.push(
                            GamescopeWaylandFrameSample { app_id, visible_frametime_ns: frametime_ns },
                        )
                        &&& *final(result) == (GamescopeWaylandReadResult {
                            samples_read: old(result).samples_read.saturating_add(1),
                            ..*old(result)
                        })
                    }
                }
            }),
    {
        if message.object_id != GAMESCOPE_CONTROL_ID || message.opcode
            != GAMESCOPE_CONTROL_APP_PERFORMANCE_STATS {
            return ;
        }
        let (app_id, frametime_ns) = match parse_app_performance_stats_with(
            message.payload.as_slice(),
            little,
        ) {
            Some(v) => v,
            None => {
                return ;
            },
        };
        if self.pending_app_id == Some(app_id) {
            self.pending_app_id = None;
        }
        if app_id != current_app_id {
            result.dropped_wrong_session = result.dropped_wrong_session.saturating_add(1);
            return ;
        }
        if frametime_ns == 0 {
            result.dropped_zero = result.dropped_zero.saturating_add(1);
        } else if frametime_ns > max_frame_time_ns {
            result.dropped_too_large = result.dropped_too_large.saturating_add(1);
        } else {
            samples.push(GamescopeWaylandFrameSample { app_id, visible_frametime_ns: frametime_ns });
            result.samples_read = result.samples_read.saturating_add(1);
        }
    }

    /// Handles one message in the machine's byte order.
    pub fn handle_message(
        &mut self,
        current_app_id: u32,
        max_frame_time_ns: u64,
        message: &WaylandMessage,
        samples: &mut Vec<GamescopeWaylandFrameSample>,
        result: &mut GamescopeWaylandReadResult,
    )
        ensures
            exists|little: bool|
                {
                    let stats = #[trigger] app_performance_spec(message.payload@, little);
                    if message.object_id != GAMESCOPE_CONTROL_ID || message.opcode
                        != GAMESCOPE_CONTROL_APP_PERFORMANCE_STATS || stats is None {
                        &&& *final(self) == *old(self)
                        &&& final(samples)@ == old(samples)@
                        &&& *final(result) == *old(result)
                    } else {
                        let (app_id, frametime_ns) = stats->0;
                        &&& final(self).pending_app_id == (if old(self).pending_app_id == Some(
                            app_id,
                        ) {
                            None
                        } else {
                            old(self).pending_app_id
                        })
                        &&& if app_id != current_app_id {
                            &&& final(samples)@ == old(samples)@
                            &&& *final(result) == (GamescopeWaylandReadResult {
                                dropped_wrong_session: old(result).dropped_wrong_session.saturating_add(1),
                                ..*old(result)
                            })
                        } else if frametime_ns == 0 {
                            &&& final(samples)@ == old(samples)@
                            &&& *final(result) == (GamescopeWaylandReadResult {
                                dropped_zero: old(result).dropped_zero.saturating_add(1),
                                ..*old(result)
                            })
                        } else if frametime_ns > max_frame_time_ns {
                            &&& final(samples)@ == old(samples)@
                            &&& *final(result) == (GamescopeWaylandReadResult {
                                dropped_too_large: old(result).dropped_too_large.saturating_add(1),
                                ..*old(result)
                            })
                        } else {
                            &&& final(samples)@ == old(samples)@.push(
                                GamescopeWaylandFrameSample {
                                    app_id,
                                    visible_frametime_ns: frametime_ns,
                                },
                            )
                            &&& *final(result) == (GamescopeWaylandReadResult {
                                samples_read: old(result).samples_read.saturating_add(1),
                                ..*old(result)
                            })
                        }
                    }
                },
    {
        let little = native_little_endian();
        self.handle_message_with(current_app_id, max_frame_time_ns, message, samples, result, little);
    }
}


/// The Gamescope Wayland socket: the configured display, or else the one
/// the environment names, or `gamescope-0`; a display holding a `/` is a
/// path of its own, any other lies in the runtime directory (from the
/// environment, or `/run/user/<euid>`).
pub open spec fn socket_path_spec(
    config_display: Seq<char>,
    env_display: Option<Seq<char>>,
    runtime_dir: Option<Seq<char>>,
    euid: u32,
) -> Seq<char> {
    let dir = match runtime_dir {
        Some(d) => d,
        None => "/run/user/"@ + crate::text::decimal(euid as nat),
    };
    let display = if crate::text::trim(config_display).len() == 0 {
        match env_display {
            Some(d) => d,
            None => "gamescope-0"@,
        }
    } else {
        config_display
    };
    if crate::text::index_of(display, '/') is Some {
        display
    } else {
        crate::text::join_path(dir, display)
    }
}

pub fn gamescope_socket_path(
    config_display: &str,
    env_display: Option<&str>,
    runtime_dir: Option<&str>,
    euid: u32,
) -> (r: String)
    ensures
        r@ == socket_path_spec(
            config_display@,
            match env_display {
                Some(d) => Some(d@),
                None => None,
            },
            match runtime_dir {
                Some(d) => Some(d@),
                None => None,
            },
            euid,
        ),
{
    let dir = match runtime_dir {
        Some(d) => crate::text::chars_of(d),
        None => {
            let prefix = crate::text::chars_of("/run/user/");
            let digits = crate::text::decimal_chars(euid as u64);
            crate::text::concat(&prefix, &digits)
        },
    };
    let configured = crate::text::chars_of(config_display);
    let trimmed = crate::text::trim_chars(&configured);
    let display = if trimmed.len() == 0 {
        match env_display {
            Some(d) => crate::text::chars_of(d),
            None => crate::text::chars_of("gamescope-0"),
        }
    } else {
        configured
    };
    let path = if crate::text::index_of_char(&display, '/').is_some() {
        display
    } else {
        crate::text::join_path_chars(&dir, &display)
    };
    crate::text::string_of(&path)
}

} // verus!
