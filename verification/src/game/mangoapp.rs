//! Frame times that MangoApp sends Gamescope through a System V message
//! queue: the layout of a version 1 message, the checks a frame time must
//! pass, the tallies of what was read and dropped, and the choice among the
//! queues a reader listens on.
//!
//! A message starts with the C `long` message type; the fields follow it
//! packed, in the byte order of the machine. Every decoding function states
//! its result for a given `long` size and byte order, and the functions
//! without them use the machine's.

use vstd::prelude::*;

use crate::bytes::{dword_at, native_little_endian, read_dword, read_word, word_at};

verus! {

/// The message type MangoApp sends frame statistics with.
pub const MANGOAPP_FRAME_MESSAGE_TYPE: i64 = 1;
pub const MANGOAPP_MESSAGE_VERSION: u32 = 1;
/// The frame time MangoApp sends when it has none.
pub const INVALID_FRAME_TIME_NS: u64 = u64::MAX;
/// The payload bytes (after the message type) a receive asks for.
pub const MANGOAPP_PAYLOAD_CAPACITY: usize = 4096;

#[derive(Debug, Clone, Copy, PartialEq, Eq, Structural)]
pub struct MangoAppFrameSample {
    pub pid: u32,
    pub app_frametime_ns: u64,
    pub visible_frametime_ns: u64,
    pub latency_ns: u64,
}

#[derive(Debug, Clone, Copy, PartialEq, Eq, Structural)]
pub enum MangoAppDropReason {
    Zero,
    TooLarge,
    InvalidSentinel,
    UnsupportedVersion,
    TooShort,
}

/// What one received message amounts to.
#[derive(Debug, Clone, Copy, PartialEq, Eq, Structural)]
pub enum MangoAppReadOne {
    Sample(MangoAppFrameSample),
    Dropped(MangoAppDropReason),
}

/// Tallies of one read: samples kept and messages dropped, by reason.
#[derive(Debug, Clone, Copy, PartialEq, Eq, Structural)]
pub struct MangoAppReadResult {
    pub samples_read: usize,
    pub dropped_zero: u64,
    pub dropped_too_large: u64,
    pub dropped_invalid_sentinel: u64,
    pub dropped_unsupported_version: u64,
    pub dropped_too_short: u64,
}

impl Default for MangoAppReadResult {
    fn default() -> (r: Self)
        ensures
            r == MangoAppReadResult::zero(),
    {
        MangoAppReadResult {
            samples_read: 0,
            dropped_zero: 0,
            dropped_too_large: 0,
            dropped_invalid_sentinel: 0,
            dropped_unsupported_version: 0,
            dropped_too_short: 0,
        }
    }
}

impl MangoAppReadResult {
    pub open spec fn zero() -> Self {
        MangoAppReadResult {
            samples_read: 0,
            dropped_zero: 0,
            dropped_too_large: 0,
            dropped_invalid_sentinel: 0,
            dropped_unsupported_version: 0,
            dropped_too_short: 0,
        }
    }

    /// The tallies after one more drop for `reason` (each saturates).
    pub open spec fn with_drop(self, reason: MangoAppDropReason) -> Self {
        match reason {
            MangoAppDropReason::Zero => MangoAppReadResult {
                dropped_zero: self.dropped_zero.saturating_add(1),
                ..self
            },
            MangoAppDropReason::TooLarge => MangoAppReadResult {
                dropped_too_large: self.dropped_too_large.saturating_add(1),
                ..self
            },
            MangoAppDropReason::InvalidSentinel => MangoAppReadResult {
                dropped_invalid_sentinel: self.dropped_invalid_sentinel.saturating_add(1),
                ..self
            },
            MangoAppDropReason::UnsupportedVersion => MangoAppReadResult {
                dropped_unsupported_version: self.dropped_unsupported_version.saturating_add(1),
                ..self
            },
            MangoAppDropReason::TooShort => MangoAppReadResult {
                dropped_too_short: self.dropped_too_short.saturating_add(1),
                ..self
            },
        }
    }

    pub fn record_drop(&mut self, reason: MangoAppDropReason)
        ensures
            *final(self) == old(self).with_drop(reason),
    {
        match reason {
            MangoAppDropReason::Zero => {
                self.dropped_zero = self.dropped_zero.saturating_add(1);
            },
            MangoAppDropReason::TooLarge => {
                self.dropped_too_large = self.dropped_too_large.saturating_add(1);
            },
            MangoAppDropReason::InvalidSentinel => {
                self.dropped_invalid_sentinel = self.dropped_invalid_sentinel.saturating_add(1);
            },
            MangoAppDropReason::UnsupportedVersion => {
                self.dropped_unsupported_version =
                self.dropped_unsupported_version.saturating_add(1);
            },
            MangoAppDropReason::TooShort => {
                self.dropped_too_short = self.dropped_too_short.saturating_add(1);
            },
        }
    }

    /// Whether anything at all was received: a sample or a drop.
    pub open spec fn active(self) -> bool {
        self.samples_read > 0 || self.dropped_zero > 0 || self.dropped_too_large > 0
            || self.dropped_invalid_sentinel > 0 || self.dropped_unsupported_version > 0
            || self.dropped_too_short > 0
    }

    pub fn has_activity(&self) -> (r: bool)
        ensures
            r == self.active(),
    {
        self.samples_read > 0 || self.dropped_zero > 0 || self.dropped_too_large > 0
            || self.dropped_invalid_sentinel > 0 || self.dropped_unsupported_version > 0
            || self.dropped_too_short > 0
    }

    /// Takes one received message into account: a sample is kept and
    /// counted, a drop is counted by its reason.
    pub fn record(&mut self, one: MangoAppReadOne, samples: &mut Vec<MangoAppFrameSample>)
        requires
            old(self).samples_read < usize::MAX,
        ensures
            match one {
                MangoAppReadOne::Sample(s) => final(samples)@ == old(samples)@.push(s)
                    && *final(self) == (MangoAppReadResult {
                    samples_read: (old(self).samples_read + 1) as usize,
                    ..*old(self)
                }),
                MangoAppReadOne::Dropped(reason) => final(samples)@ == old(samples)@
                    && *final(self) == old(self).with_drop(reason),
            },
    {
        match one {
            MangoAppReadOne::Sample(sample) => {
                samples.push(sample);
                self.samples_read = self.samples_read + 1;
            },
            MangoAppReadOne::Dropped(reason) => self.record_drop(reason),
        }
    }
}

#[derive(Debug, Clone, Copy, PartialEq, Eq, Structural)]
pub enum MangoAppQueueSource {
    ConfiguredFtok,
    LegacyFailedFtok,
}

impl MangoAppQueueSource {
    pub open spec fn label_spec(self) -> Seq<char> {
        match self {
            MangoAppQueueSource::ConfiguredFtok => "configured_ftok"@,
            MangoAppQueueSource::LegacyFailedFtok => "legacy_failed_ftok"@,
        }
    }

    pub fn label(self) -> (r: &'static str)
        ensures
            r@ == self.label_spec(),
    {
        match self {
            MangoAppQueueSource::ConfiguredFtok => "configured_ftok",
            MangoAppQueueSource::LegacyFailedFtok => "legacy_failed_ftok",
        }
    }
}

// ---------------------------------------------------------------------------
// Message layout
// ---------------------------------------------------------------------------

/// `size_of::<libc::c_long>()`: the size of C `long`, 4 or 8 bytes.
#[verifier::external_body]
fn c_long_size() -> (r: usize)
    ensures
        r == 4 || r == 8,
{
    std::mem::size_of::<libc::c_long>()
}

/// Offsets of the fields of a version 1 message, for a `long` of `long`
/// bytes: the version follows the type, then the pid, the visible frame
/// time, two bytes of upscaling settings, the app frame time and the
/// latency.
pub open spec fn version_offset(long: int) -> int {
    long
}

pub open spec fn pid_offset(long: int) -> int {
    long + 4
}

pub open spec fn visible_offset(long: int) -> int {
    long + 8
}

pub open spec fn app_frametime_offset(long: int) -> int {
    long + 18
}

pub open spec fn latency_offset(long: int) -> int {
    long + 26
}

/// A field of `size` bytes at `offset` is there when the payload (what
/// follows the type) reaches its end and the buffer holds it.
pub open spec fn field_present(m: Seq<u8>, payload_len: int, offset: int, size: int, long: int) -> bool {
    payload_len >= offset + size - long && offset + size <= m.len()
}

pub open spec fn field_u32(m: Seq<u8>, payload_len: int, offset: int, long: int, little: bool) -> Option<u32> {
    if field_present(m, payload_len, offset, 4, long) {
        Some(word_at(m, offset, little))
    } else {
        None
    }
}

pub open spec fn field_u64(m: Seq<u8>, payload_len: int, offset: int, long: int, little: bool) -> Option<u64> {
    if field_present(m, payload_len, offset, 8, long) {
        Some(dword_at(m, offset, little))
    } else {
        None
    }
}

pub open spec fn or_zero32(o: Option<u32>) -> u32 {
    match o {
        Some(v) => v,
        None => 0,
    }
}

pub open spec fn or_zero64(o: Option<u64>) -> u64 {
    match o {
        Some(v) => v,
        None => 0,
    }
}

/// What a received message amounts to: a version other than 1, a missing
/// or unusable visible frame time, or one above `max`, is a drop; otherwise
/// a sample, whose other fields are zero where the payload stops short.
pub open spec fn decode_spec(m: Seq<u8>, payload_len: int, max: u64, long: int, little: bool) -> MangoAppReadOne {
    match field_u32(m, payload_len, version_offset(long), long, little) {
        None => MangoAppReadOne::Dropped(MangoAppDropReason::TooShort),
        Some(version) => if version != MANGOAPP_MESSAGE_VERSION {
            MangoAppReadOne::Dropped(MangoAppDropReason::UnsupportedVersion)
        } else {
            match field_u64(m, payload_len, visible_offset(long), long, little) {
                None => MangoAppReadOne::Dropped(MangoAppDropReason::TooShort),
                Some(visible) => if visible == INVALID_FRAME_TIME_NS {
                    MangoAppReadOne::Dropped(MangoAppDropReason::InvalidSentinel)
                } else if visible == 0 {
                    MangoAppReadOne::Dropped(MangoAppDropReason::Zero)
                } else if visible > max {
                    MangoAppReadOne::Dropped(MangoAppDropReason::TooLarge)
                } else {
                    MangoAppReadOne::Sample(
                        MangoAppFrameSample {
                            pid: or_zero32(field_u32(m, payload_len, pid_offset(long), long, little)),
                            app_frametime_ns: or_zero64(
                                field_u64(m, payload_len, app_frametime_offset(long), long, little),
                            ),
                            visible_frametime_ns: visible,
                            latency_ns: or_zero64(
                                field_u64(m, payload_len, latency_offset(long), long, little),
                            ),
                        },
                    )
                },
            }
        },
    }
}

fn read_field_u32(m: &[u8], payload_len: usize, offset: usize, long: usize, little: bool) -> (r: Option<u32>)
    requires
        long <= offset <= 64,
    ensures
        r == field_u32(m@, payload_len as int, offset as int, long as int, little),
{
    if payload_len < offset + 4 - long || offset + 4 > m.len() {
        return None;
    }
    Some(read_word(m, offset, little))
}

fn read_field_u64(m: &[u8], payload_len: usize, offset: usize, long: usize, little: bool) -> (r: Option<u64>)
    requires
        long <= offset <= 64,
    ensures
        r == field_u64(m@, payload_len as int, offset as int, long as int, little),
{
    if payload_len < offset + 8 - long || offset + 8 > m.len() {
        return None;
    }
    Some(read_dword(m, offset, little))
}

/// Decodes a received message: `message` holds the type and then
/// `payload_len` payload bytes.
pub fn decode_message_with(
    message: &[u8],
    payload_len: usize,
    max_frame_time_ns: u64,
    long: usize,
    little: bool,
) -> (r: MangoAppReadOne)
    requires
        long == 4 || long == 8,
    ensures
        r == decode_spec(message@, payload_len as int, max_frame_time_ns, long as int, little),
{
    let version = match read_field_u32(message, payload_len, long, long, little) {
        Some(v) => v,
        None => {
            return MangoAppReadOne::Dropped(MangoAppDropReason::TooShort);
        },
    };
    if version != MANGOAPP_MESSAGE_VERSION {
        return MangoAppReadOne::Dropped(MangoAppDropReason::UnsupportedVersion);
    }
    let visible = match read_field_u64(message, payload_len, long + 8, long, little) {
        Some(v) => v,
        None => {
            return MangoAppReadOne::Dropped(MangoAppDropReason::TooShort);
        },
    };
    if visible == INVALID_FRAME_TIME_NS {
        return MangoAppReadOne::Dropped(MangoAppDropReason::InvalidSentinel);
    }
    if visible == 0 {
        return MangoAppReadOne::Dropped(MangoAppDropReason::Zero);
    }
    if visible > max_frame_time_ns {
        return MangoAppReadOne::Dropped(MangoAppDropReason::TooLarge);
    }
    let pid = match read_field_u32(message, payload_len, long + 4, long, little) {
        Some(v) => v,
        None => 0,
    };
    let app_frametime_ns = match read_field_u64(message, payload_len, long + 18, long, little) {
        Some(v) => v,
        None => 0,
    };
    let latency_ns = match read_field_u64(message, payload_len, long + 26, long, little) {
        Some(v) => v,
        None => 0,
    };
    MangoAppReadOne::Sample(
        MangoAppFrameSample { pid, app_frametime_ns, visible_frametime_ns: visible, latency_ns },
    )
}

/// Decodes a received message with the machine's `long` and byte order.
pub fn decode_message(message: &[u8], payload_len: usize, max_frame_time_ns: u64) -> (r: MangoAppReadOne)
    ensures
        exists|long: int, little: bool|
            (long == 4 || long == 8) && r == #[trigger] decode_spec(
                message@,
                payload_len as int,
                max_frame_time_ns,
                long,
                little,
            ),
{
    let long = c_long_size();
    let little = native_little_endian();
    let r = decode_message_with(message, payload_len, max_frame_time_ns, long, little);
    assert(r == decode_spec(message@, payload_len as int, max_frame_time_ns, long as int, little));
    r
}

/// The size of the buffer a receive needs: the type and the payload.
pub fn message_buffer_size() -> (r: usize)
    ensures
        r == 4 + MANGOAPP_PAYLOAD_CAPACITY || r == 8 + MANGOAPP_PAYLOAD_CAPACITY,
{
    c_long_size() + MANGOAPP_PAYLOAD_CAPACITY
}

// ---------------------------------------------------------------------------
// Choosing among queues
// ---------------------------------------------------------------------------

/// The indices other than `active` among the first `k`, in order.
pub open spec fn other_indices(k: nat, active: Option<usize>) -> Seq<usize>
    decreases k,
{
    if k == 0 {
        seq![]
    } else {
        let rest = other_indices((k - 1) as nat, active);
        if active == Some((k - 1) as usize) {
            rest
        } else {
            rest.push((k - 1) as usize)
        }
    }
}

/// The order in which the sources are read: the active one first, when it
/// is one of them, then the others in order.
pub open spec fn read_order_spec(count: nat, active: Option<usize>) -> Seq<usize> {
    match active {
        Some(a) => if a < count {
            seq![a] + other_indices(count, active)
        } else {
            other_indices(count, active)
        },
        None => other_indices(count, active),
    }
}

pub fn read_order_for_sources(source_count: usize, active_index: Option<usize>) -> (r: Vec<usize>)
    ensures
        r@ == read_order_spec(source_count as nat, active_index),
{
    let mut order: Vec<usize> = Vec::new();
    let lead = match active_index {
        Some(a) => a < source_count,
        None => false,
    };
    if lead {
        order.push(active_index.unwrap());
    }
    let ghost start = order@;
    let mut index: usize = 0;
    while index < source_count
        invariant
            0 <= index <= source_count,
            order@ == start + other_indices(index as nat, active_index),
        decreases source_count - index,
    {
        if Some(index) != active_index {
            order.push(index);
        }
        assert(other_indices((index + 1) as nat, active_index) == (if active_index == Some(index) {
            other_indices(index as nat, active_index)
        } else {
            other_indices(index as nat, active_index).push(index)
        }));
        index += 1;
    }
    assert(order@ =~= read_order_spec(source_count as nat, active_index));
    order
}

proof fn lemma_other_indices(k: nat, active: Option<usize>)
    requires
        k <= usize::MAX + 1,
    ensures
        forall|i: int| 0 <= i < other_indices(k, active).len() ==> (#[trigger] other_indices(k, active)[i]) < k
            && Some(other_indices(k, active)[i]) != active,
        forall|j: usize| j < k && Some(j) != active ==> other_indices(k, active).contains(j),
        forall|i: int, j: int|
            0 <= i < j < other_indices(k, active).len() ==> #[trigger] other_indices(k, active)[i]
                < #[trigger] other_indices(k, active)[j],
        other_indices(k, active).len() == (match active {
            Some(a) => if a < k {
                k - 1
            } else {
                k as int
            },
            None => k as int,
        }),
    decreases k,
{
    if k > 0 {
        lemma_other_indices((k - 1) as nat, active);
        let rest = other_indices((k - 1) as nat, active);
        let last = (k - 1) as usize;
        if active != Some(last) {
            assert(rest.push(last)[rest.len() as int] == last);
            assert forall|j: usize| j < k && Some(j) != active implies rest.push(last).contains(j) by {
                if j < k - 1 {
                    assert(rest.contains(j));
                    let w = choose|w: int| 0 <= w < rest.len() && rest[w] == j;
                    assert(rest.push(last)[w] == j);
                }
            }
        }
    }
}

/// Every source is read once: the read order holds each index below
/// `count` exactly once, and starts with the active source whenever that
/// is one of them.
pub proof fn lemma_read_order_is_permutation(count: nat, active: Option<usize>)
    requires
        count <= usize::MAX,
    ensures
        read_order_spec(count, active).len() == count,
        forall|j: usize| j < count ==> read_order_spec(count, active).contains(j),
        forall|i: int| 0 <= i < count ==> (#[trigger] read_order_spec(count, active)[i]) < count,
        forall|i: int, j: int|
            0 <= i < j < count ==> #[trigger] read_order_spec(count, active)[i]
                != #[trigger] read_order_spec(count, active)[j],
        active matches Some(a) ==> (a < count ==> read_order_spec(count, active)[0] == a),
{
    lemma_other_indices(count, active);
    let others = other_indices(count, active);
    match active {
        Some(a) => {
            if a < count {
                let r = seq![a] + others;
                assert forall|j: usize| j < count implies r.contains(j) by {
                    if j == a {
                        assert(r[0] == j);
                    } else {
                        assert(others.contains(j));
                        let w = choose|w: int| 0 <= w < others.len() && others[w] == j;
                        assert(r[w + 1] == j);
                    }
                }
                assert forall|i: int| 0 <= i < count implies (#[trigger] r[i]) < count by {
                    if i > 0 {
                        assert(r[i] == others[i - 1]);
                    }
                }
                assert forall|i: int, j: int| 0 <= i < j < count implies #[trigger] r[i]
                    != #[trigger] r[j] by {
                    assert(r[j] == others[j - 1]);
                    if i > 0 {
                        assert(r[i] == others[i - 1]);
                    }
                }
            }
        },
        None => {},
    }
}

/// A queue a reader listens on: which one, and its System V queue id.
#[derive(Debug, Clone, Copy, PartialEq, Eq, Structural)]
pub struct MangoAppQueueReader {
    pub source: MangoAppQueueSource,
    pub queue_id: i32,
}

/// The queues MangoApp frames are read from, and the one that last gave
/// something.
#[derive(Debug, Clone, PartialEq, Eq)]
pub struct MangoAppFrameReader {
    pub sources: Vec<MangoAppQueueReader>,
    pub active_source: Option<MangoAppQueueSource>,
    pub max_frame_time_ns: u64,
}

/// The first position in `sources` of a queue of kind `kind`.
pub open spec fn source_position(sources: Seq<MangoAppQueueReader>, kind: MangoAppQueueSource) -> Option<int> {
    crate::text::first_match(sources.len() as int, |i: int| sources[i].source == kind)
}

impl MangoAppFrameReader {
    pub fn new(sources: Vec<MangoAppQueueReader>, max_frame_time_ns: u64) -> (r: Self)
        ensures
            r.sources@ == sources@,
            r.active_source is None,
            r.max_frame_time_ns == max_frame_time_ns,
    {
        MangoAppFrameReader { sources, active_source: None, max_frame_time_ns }
    }

    /// The label of the active queue, or else of the first, or
    /// `unavailable` when there is none.
    pub fn queue_label(&self) -> (r: &'static str)
        ensures
            r@ == (match self.active_source {
                Some(s) => s.label_spec(),
                None => if self.sources@.len() > 0 {
                    self.sources@[0].source.label_spec()
                } else {
                    "unavailable"@
                },
            }),
    {
        match self.active_source {
            Some(s) => s.label(),
            None => if self.sources.len() > 0 {
                self.sources[0].source.label()
            } else {
                "unavailable"
            },
        }
    }

    pub fn source_index(&self, kind: MangoAppQueueSource) -> (r: Option<usize>)
        ensures
            match r {
                Some(i) => source_position(self.sources@, kind) == Some(i as int),
                None => source_position(self.sources@, kind) is None,
            },
    {
        let ghost p = |i: int| self.sources@[i].source == kind;
        let mut i: usize = 0;
        while i < self.sources.len()
            invariant
                0 <= i <= self.sources.len(),
                p == (|i: int| self.sources@[i].source == kind),
                forall|j: int| 0 <= j < i ==> !#[trigger] p(j),
            decreases self.sources.len() - i,
        {
            if self.sources[i].source == kind {
                proof {
                    crate::text::lemma_first_match_from(0, self.sources@.len() as int, p, i as int);
                }
                return Some(i);
            }
            i += 1;
        }
        proof {
            crate::text::lemma_first_match_from(0, self.sources@.len() as int, p, i as int);
        }
        None
    }

    /// Whether a queue of kind `kind` is listened on.
    pub fn has_source(&self, kind: MangoAppQueueSource) -> (r: bool)
        ensures
            r == exists|i: int| 0 <= i < self.sources@.len() && self.sources@[i].source == kind,
    {
        let r = self.source_index(kind);
        proof {
            let p = |i: int| self.sources@[i].source == kind;
            crate::text::lemma_first_match_props(self.sources@.len() as int, p);
            if r is Some {
                assert(p(r->0 as int));
                assert(self.sources@[r->0 as int].source == kind);
            } else {
                assert forall|i: int| 0 <= i < self.sources@.len() implies self.sources@[i].source
                    != kind by {
                    assert(!p(i));
                }
            }
        }
        r.is_some()
    }

    /// The position of the active queue among the sources.
    pub fn active_source_index(&self) -> (r: Option<usize>)
        ensures
            r == (match self.active_source {
                Some(a) => match source_position(self.sources@, a) {
                    Some(i) => Some(i as usize),
                    None => None,
                },
                None => None,
            }),
    {
        match self.active_source {
            Some(a) => self.source_index(a),
            None => None,
        }
    }

    /// The order in which the queues are to be read.
    pub fn read_order(&self) -> (r: Vec<usize>)
        ensures
            r@ == read_order_spec(
                self.sources@.len(),
                match self.active_source {
                    Some(a) => match source_position(self.sources@, a) {
                        Some(i) => Some(i as usize),
                        None => None,
                    },
                    None => None,
                },
            ),
    {
        let active = self.active_source_index();
        read_order_for_sources(self.sources.len(), active)
    }

    /// Whether the legacy queue should be looked for again: it is enabled
    /// and not among the sources yet.
    pub fn wants_legacy_source(&self, legacy_enabled: bool) -> (r: bool)
        ensures
            r == (legacy_enabled && !exists|i: int|
                0 <= i < self.sources@.len() && self.sources@[i].source
                    == MangoAppQueueSource::LegacyFailedFtok),
    {
        legacy_enabled && !self.has_source(MangoAppQueueSource::LegacyFailedFtok)
    }

    /// Adds a queue to listen on.
    pub fn add_source(&mut self, source: MangoAppQueueReader)
        ensures
            final(self).sources@ == old(self).sources@.push(source),
            final(self).active_source == old(self).active_source,
            final(self).max_frame_time_ns == old(self).max_frame_time_ns,
    {
        self.sources.push(source);
    }

    /// Takes the result of reading the queue at `index`. A queue that gave
    /// samples becomes the active one and its result is the read's (`true`:
    /// stop reading); otherwise the first queue with any activity is kept
    /// in `first_activity`.
    pub fn observe_source_result(
        &mut self,
        index: usize,
        result: MangoAppReadResult,
        first_activity: &mut Option<(MangoAppQueueSource, MangoAppReadResult)>,
    ) -> (done: bool)
        requires
            index < old(self).sources@.len(),
        ensures
            done == (result.samples_read > 0),
            final(self).sources@ == old(self).sources@,
            final(self).max_frame_time_ns == old(self).max_frame_time_ns,
            done ==> final(self).active_source == Some(old(self).sources@[index as int].source)
                && *final(first_activity) == *old(first_activity),
            !done ==> final(self).active_source == old(self).active_source
                && *final(first_activity) == (if (*old(first_activity)) is None && result.active() {
                Some((old(self).sources@[index as int].source, result))
            } else {
                *old(first_activity)
            }),
    {
        let source = self.sources[index].source;
        if result.samples_read > 0 {
            self.active_source = Some(source);
            return true;
        }
        if first_activity.is_none() && result.has_activity() {
            *first_activity = Some((source, result));
        }
        false
    }

    /// The result of a read in which no queue gave samples: the first
    /// queue with any activity becomes the active one and its result is
    /// the read's; with none, nothing was read.
    pub fn finish_read(&mut self, first_activity: Option<(MangoAppQueueSource, MangoAppReadResult)>) -> (r: MangoAppReadResult)
        ensures
            final(self).sources@ == old(self).sources@,
            final(self).max_frame_time_ns == old(self).max_frame_time_ns,
            match first_activity {
                Some((source, result)) => final(self).active_source == Some(source) && r == result,
                None => final(self).active_source == old(self).active_source && r
                    == MangoAppReadResult::zero(),
            },
    {
        match first_activity {
            Some((source, result)) => {
                self.active_source = Some(source);
                result
            },
            None => MangoAppReadResult::default(),
        }
    }
}

} // verus!
