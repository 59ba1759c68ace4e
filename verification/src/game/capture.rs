//! Frame-time captures: the accepted frame durations of a capture and their
//! total, from which FPS and pacing summaries are computed.

use vstd::prelude::*;

verus! {

#[derive(Debug, Clone, Copy, PartialEq, Eq, Structural)]
pub enum Tail {
    Worst,
    Best,
}

/// The sum of `s`.
pub open spec fn sum_u64(s: Seq<u64>) -> nat
    decreases s.len(),
{
    if s.len() == 0 {
        0
    } else {
        sum_u64(s.drop_last()) + s.last() as nat
    }
}

pub proof fn lemma_sum_u64_bound(s: Seq<u64>)
    ensures
        sum_u64(s) <= s.len() * (u64::MAX as nat),
    decreases s.len(),
{
    if s.len() > 0 {
        lemma_sum_u64_bound(s.drop_last());
        assert((s.len() - 1) * (u64::MAX as nat) + u64::MAX as nat == s.len() * (u64::MAX as nat))
            by (nonlinear_arith);
    }
}

/// The non-zero elements of `s`, in order.
pub open spec fn nonzero(s: Seq<u64>) -> Seq<u64>
    decreases s.len(),
{
    if s.len() == 0 {
        seq![]
    } else if s.last() > 0 {
        nonzero(s.drop_last()).push(s.last())
    } else {
        nonzero(s.drop_last())
    }
}

/// The frames of a capture holding `start` after `push_frame_time_ns` is
/// called with each of `xs` in turn: a zero duration is refused, any other
/// is appended.
pub open spec fn pushed_frames(start: Seq<u64>, xs: Seq<u64>) -> Seq<u64>
    decreases xs.len(),
{
    if xs.len() == 0 {
        start
    } else {
        let before = pushed_frames(start, xs.drop_last());
        if xs.last() > 0 {
            before.push(xs.last())
        } else {
            before
        }
    }
}

/// Building a capture from durations is pushing them one by one: pushing
/// `xs` onto a capture appends exactly the non-zero durations of `xs`, in
/// order, so `from_frame_times_ns(xs)` holds what pushing each of `xs` onto
/// `new()` gives.
pub proof fn lemma_pushing_appends_nonzero(start: Seq<u64>, xs: Seq<u64>)
    ensures
        pushed_frames(start, xs) == start + nonzero(xs),
        pushed_frames(Seq::<u64>::empty(), xs) == nonzero(xs),
    decreases xs.len(),
{
    if xs.len() == 0 {
        assert(start + nonzero(xs) =~= start);
    } else {
        lemma_pushing_appends_nonzero(start, xs.drop_last());
        if xs.last() > 0 {
            assert((start + nonzero(xs.drop_last())).push(xs.last()) =~= start + nonzero(xs.drop_last()).push(
                xs.last(),
            ));
        }
    }
    lemma_pushing_appends_nonzero_empty(xs);
}

proof fn lemma_pushing_appends_nonzero_empty(xs: Seq<u64>)
    ensures
        pushed_frames(Seq::<u64>::empty(), xs) == nonzero(xs),
    decreases xs.len(),
{
    if xs.len() > 0 {
        lemma_pushing_appends_nonzero_empty(xs.drop_last());
    }
}

/// The frame durations (in nanoseconds) of one capture.
#[derive(Debug, Clone)]
pub struct CaptureStats {
    frame_times_ns: Vec<u64>,
    total_ns: u128,
}

impl CaptureStats {
    /// The total is the sum of the durations, and every duration is positive.
    pub closed spec fn wf(self) -> bool {
        &&& self.total_ns as nat == sum_u64(self.frame_times_ns@)
        &&& forall|i: int| 0 <= i < self.frame_times_ns@.len() ==> self.frame_times_ns@[i] > 0
    }

    /// The accepted frame durations, in order.
    pub closed spec fn frames(self) -> Seq<u64> {
        self.frame_times_ns@
    }

    pub fn new() -> (r: Self)
        ensures
            r.wf(),
            r.frames() == Seq::<u64>::empty(),
    {
        CaptureStats { frame_times_ns: Vec::new(), total_ns: 0 }
    }

    /// A capture of the non-zero durations of `frame_times_ns`, in order.
    pub fn from_frame_times_ns(frame_times_ns: &[u64]) -> (r: Self)
        ensures
            r.wf(),
            r.frames() == nonzero(frame_times_ns@),
    {
        let mut stats = Self::new();
        let mut i: usize = 0;
        while i < frame_times_ns.len()
            invariant
                0 <= i <= frame_times_ns@.len(),
                stats.wf(),
                stats.frames() == nonzero(frame_times_ns@.take(i as int)),
            decreases frame_times_ns.len() - i,
        {
            stats.push_frame_time_ns(frame_times_ns[i]);
            assert(frame_times_ns@.take(i + 1).drop_last() =~= frame_times_ns@.take(i as int));
            i += 1;
        }
        assert(frame_times_ns@.take(frame_times_ns.len() as int) =~= frame_times_ns@);
        stats
    }

    /// Adds a frame; a zero duration is refused.
    pub fn push_frame_time_ns(&mut self, ns: u64) -> (r: bool)
        requires
            old(self).wf(),
        ensures
            final(self).wf(),
            r == (ns > 0),
            final(self).frames() == if ns > 0 {
                old(self).frames().push(ns)
            } else {
                old(self).frames()
            },
    {
        if ns == 0 {
            return false;
        }
        proof {
            lemma_sum_u64_bound(self.frame_times_ns@);
            assert(self.frame_times_ns@.len() == self.frame_times_ns.len());
            assert(self.frame_times_ns@.len() * (u64::MAX as nat) + ns <= u128::MAX) by (
            nonlinear_arith)
                requires
                    self.frame_times_ns@.len() <= usize::MAX,
                    usize::MAX <= u64::MAX,
                    ns <= u64::MAX,
            ;
        }
        let ghost old_frames = self.frame_times_ns@;
        self.total_ns = self.total_ns + ns as u128;
        self.frame_times_ns.push(ns);
        assert(self.frame_times_ns@.drop_last() =~= old_frames);
        true
    }

    /// Adds a frame no longer than `max_frame_time_ns`; a zero or longer
    /// duration is refused.
    pub fn push_frame_time_ns_filtered(&mut self, ns: u64, max_frame_time_ns: u64) -> (r: bool)
        requires
            old(self).wf(),
        ensures
            final(self).wf(),
            r == (ns > 0 && ns <= max_frame_time_ns),
            final(self).frames() == if r {
                old(self).frames().push(ns)
            } else {
                old(self).frames()
            },
    {
        if ns == 0 || ns > max_frame_time_ns {
            return false;
        }
        self.push_frame_time_ns(ns)
    }

    pub fn frame_count(&self) -> (r: usize)
        ensures
            r == self.frames().len(),
    {
        self.frame_times_ns.len()
    }

    pub fn is_empty(&self) -> (r: bool)
        ensures
            r == (self.frames().len() == 0),
    {
        self.frame_times_ns.len() == 0
    }

    pub fn clear(&mut self)
        ensures
            final(self).wf(),
            final(self).frames() == Seq::<u64>::empty(),
    {
        *self = CaptureStats { frame_times_ns: Vec::new(), total_ns: 0 };
    }

    /// The total of the accepted durations.
    pub fn total_ns(&self) -> (r: u128)
        requires
            self.wf(),
        ensures
            r == sum_u64(self.frames()),
    {
        self.total_ns
    }

    /// The accepted durations, in order.
    pub fn frame_times_ns(&self) -> (r: Vec<u64>)
        ensures
            r@ == self.frames(),
    {
        self.frame_times_ns.clone()
    }

    /// Every accepted duration is positive.
    pub proof fn lemma_frames_positive(&self)
        requires
            self.wf(),
        ensures
            forall|i: int| 0 <= i < self.frames().len() ==> self.frames()[i] > 0,
    {
    }
}

/// The absolute differences of consecutive frame durations.
pub open spec fn jitter_spec(f: Seq<u64>) -> Seq<u64> {
    Seq::new(
        if f.len() == 0 {
            0
        } else {
            (f.len() - 1) as nat
        },
        |i: int|
            if f[i] >= f[i + 1] {
                (f[i] - f[i + 1]) as u64
            } else {
                (f[i + 1] - f[i]) as u64
            },
    )
}

pub fn jitter_values_ns(frame_times_ns: &[u64]) -> (r: Vec<u64>)
    ensures
        r@ == jitter_spec(frame_times_ns@),
{
    let mut out: Vec<u64> = Vec::new();
    let mut i: usize = 0;
    if frame_times_ns.len() == 0 {
        assert(out@ =~= jitter_spec(frame_times_ns@));
        return out;
    }
    while i + 1 < frame_times_ns.len()
        invariant
            frame_times_ns@.len() > 0,
            0 <= i < frame_times_ns@.len(),
            out@ =~= jitter_spec(frame_times_ns@).take(i as int),
        decreases frame_times_ns.len() - i,
    {
        let a = frame_times_ns[i];
        let b = frame_times_ns[i + 1];
        let d = if a >= b {
            a - b
        } else {
            b - a
        };
        out.push(d);
        i += 1;
    }
    assert(jitter_spec(frame_times_ns@).take(i as int) =~= jitter_spec(frame_times_ns@));
    out
}


// ---------------------------------------------------------------------------
// Ordered frame times and their tails
// ---------------------------------------------------------------------------

pub open spec fn ascending(s: Seq<u64>) -> bool {
    forall|i: int, j: int| 0 <= i < j < s.len() ==> s[i] <= s[j]
}

proof fn lemma_insert_ascending(s: Seq<u64>, p: int, x: u64)
    requires
        ascending(s),
        0 <= p <= s.len(),
        forall|j: int| 0 <= j < p ==> s[j] <= x,
        p < s.len() ==> x < s[p],
    ensures
        ascending(s.insert(p, x)),
{
    let t = s.insert(p, x);
    s.insert_ensures(p, x);
    assert forall|i: int, j: int| 0 <= i < j < t.len() implies t[i] <= t[j] by {
        if j < p {
        } else if j == p {
        } else {
            assert(t[(j - 1) + 1] == s[j - 1]);
            if i < p {
            } else if i == p {
            } else {
                assert(t[(i - 1) + 1] == s[i - 1]);
            }
        }
    }
}

/// The values in ascending order: the same values, each as often.
pub fn sorted_ns(values: &[u64]) -> (r: Vec<u64>)
    ensures
        ascending(r@),
        r@.to_multiset() == values@.to_multiset(),
{
    let mut out: Vec<u64> = Vec::new();
    let mut i: usize = 0;
    assert(values@.take(0).to_multiset() =~= out@.to_multiset()) by {
        assert(values@.take(0) =~= out@);
    }
    while i < values.len()
        invariant
            0 <= i <= values@.len(),
            ascending(out@),
            out@.to_multiset() == values@.take(i as int).to_multiset(),
        decreases values.len() - i,
    {
        let x = values[i];
        let mut p: usize = 0;
        while p < out.len() && out[p] <= x
            invariant
                0 <= p <= out@.len(),
                forall|j: int| 0 <= j < p ==> out@[j] <= x,
            decreases out.len() - p,
        {
            p += 1;
        }
        let ghost before = out@;
        proof {
            lemma_insert_ascending(out@, p as int, x);
            assert(values@.take(i + 1) =~= values@.take(i as int).push(x));
            vstd::seq_lib::to_multiset_insert(before, p as int, x);
            vstd::seq_lib::to_multiset_build(values@.take(i as int), x);
        }
        out.insert(p, x);
        assert(out@ == before.insert(p as int, x));
        i += 1;
    }
    assert(values@.take(values@.len() as int) =~= values@);
    out
}

/// Two ascending orderings of the same values are the same sequence: the
/// ordered frame times, and everything taken from them, depend only on
/// which frame times were captured, not on their order.
pub proof fn lemma_ascending_unique(x: Seq<u64>, y: Seq<u64>)
    requires
        ascending(x),
        ascending(y),
        x.to_multiset() == y.to_multiset(),
    ensures
        x == y,
{
    let leq = |a: u64, b: u64| a <= b;
    assert(vstd::relations::sorted_by(x, leq));
    assert(vstd::relations::sorted_by(y, leq));
    assert(vstd::relations::total_ordering(leq));
    vstd::seq_lib::lemma_sorted_unique(x, y, leq);
}

/// The frame time at the edge of a tail of `k` frames of an ascending
/// sequence: the `k`-th longest for the worst tail, the `k`-th shortest
/// for the best.
pub fn tail_frame_time_ns(sorted: &[u64], k: usize, tail: Tail) -> (r: u64)
    requires
        1 <= k <= sorted@.len(),
    ensures
        r == (match tail {
            Tail::Worst => sorted@[sorted@.len() - k],
            Tail::Best => sorted@[k - 1],
        }),
{
    match tail {
        Tail::Worst => sorted[sorted.len() - k],
        Tail::Best => sorted[k - 1],
    }
}

/// The total of a tail of `k` frames of an ascending sequence: the last
/// `k` for the worst tail, the first `k` for the best.
pub fn tail_sum_ns(sorted: &[u64], k: usize, tail: Tail) -> (r: u128)
    requires
        1 <= k <= sorted@.len(),
    ensures
        r as nat == (match tail {
            Tail::Worst => sum_u64(sorted@.skip(sorted@.len() - k)),
            Tail::Best => sum_u64(sorted@.take(k as int)),
        }),
{
    let (from, to) = match tail {
        Tail::Worst => (sorted.len() - k, sorted.len()),
        Tail::Best => (0, k),
    };
    let ghost part = sorted@.subrange(from as int, to as int);
    let mut total: u128 = 0;
    let mut i: usize = from;
    proof {
        assert(sorted@.subrange(from as int, from as int) =~= Seq::<u64>::empty());
    }
    while i < to
        invariant
            from <= i <= to <= sorted@.len(),
            part == sorted@.subrange(from as int, to as int),
            total as nat == sum_u64(sorted@.subrange(from as int, i as int)),
            total as nat <= (i - from) * (u64::MAX as nat),
            to - from <= usize::MAX,
        decreases to - i,
    {
        proof {
            assert(sorted@.subrange(from as int, i + 1).drop_last() =~= sorted@.subrange(from as int, i as int));
            assert((i - from) * (u64::MAX as nat) + u64::MAX as nat == (i + 1 - from) * (u64::MAX as nat)) by (nonlinear_arith);
            assert((i + 1 - from) * (u64::MAX as nat) <= usize::MAX * (u64::MAX as nat)) by (nonlinear_arith)
                requires i + 1 - from <= usize::MAX;
            assert(usize::MAX * (u64::MAX as nat) <= u128::MAX) by (nonlinear_arith)
                requires usize::MAX <= u64::MAX;
        }
        total = total + sorted[i] as u128;
        i += 1;
    }
    proof {
        match tail {
            Tail::Worst => assert(sorted@.subrange(from as int, to as int) =~= sorted@.skip(sorted@.len() - k)),
            Tail::Best => assert(sorted@.subrange(from as int, to as int) =~= sorted@.take(k as int)),
        }
    }
    total
}

} // verus!
