//! A rolling window of recent frames, by presentation time.

use vstd::prelude::*;
use std::collections::VecDeque;

verus! {

#[derive(Debug, Clone, Copy, PartialEq, Eq, Structural)]
pub struct FrameSample {
    pub timestamp_ns: u64,
    pub frame_time_ns: u64,
}

/// The sum of the frame times of `s`.
pub open spec fn sum_frame_times(s: Seq<FrameSample>) -> nat
    decreases s.len(),
{
    if s.len() == 0 {
        0
    } else {
        s[0].frame_time_ns as nat + sum_frame_times(s.drop_first())
    }
}

pub proof fn lemma_sum_push(s: Seq<FrameSample>, x: FrameSample)
    ensures
        sum_frame_times(s.push(x)) == sum_frame_times(s) + x.frame_time_ns,
    decreases s.len(),
{
    if s.len() > 0 {
        assert(s.push(x).drop_first() =~= s.drop_first().push(x));
        assert(s.push(x)[0] == s[0]);
        lemma_sum_push(s.drop_first(), x);
        assert(sum_frame_times(s.push(x)) == s[0].frame_time_ns as nat + sum_frame_times(
            s.drop_first().push(x),
        ));
    } else {
        assert(s.push(x).drop_first() =~= Seq::<FrameSample>::empty());
        assert(sum_frame_times(s.push(x).drop_first()) == 0);
        assert(s.push(x)[0] == x);
    }
}

pub proof fn lemma_sum_bound(s: Seq<FrameSample>)
    ensures
        sum_frame_times(s) <= s.len() * (u64::MAX as nat),
    decreases s.len(),
{
    if s.len() > 0 {
        lemma_sum_bound(s.drop_first());
        assert((s.len() - 1) * (u64::MAX as nat) + u64::MAX as nat == s.len() * (u64::MAX as nat))
            by (nonlinear_arith);
    }
}

/// `s` without its longest prefix of samples older than `cutoff`.
pub open spec fn evicted(s: Seq<FrameSample>, cutoff: u64) -> Seq<FrameSample>
    decreases s.len(),
{
    if s.len() > 0 && s[0].timestamp_ns < cutoff {
        evicted(s.drop_first(), cutoff)
    } else {
        s
    }
}

/// `now - window`, or 0 when `window` reaches back before time 0.
pub open spec fn cutoff_for(now: u64, window: u64) -> u64 {
    if now >= window {
        (now - window) as u64
    } else {
        0
    }
}

/// Eviction keeps a suffix, ending with the same sample, starting at a
/// sample no older than the cutoff when the last sample is not.
pub proof fn lemma_evicted(s: Seq<FrameSample>, cutoff: u64)
    requires
        s.len() > 0,
        s.last().timestamp_ns >= cutoff,
    ensures
        evicted(s, cutoff).len() >= 1,
        evicted(s, cutoff).len() <= s.len(),
        evicted(s, cutoff).last() == s.last(),
        evicted(s, cutoff)[0].timestamp_ns >= cutoff,
        s.skip(s.len() - evicted(s, cutoff).len()) == evicted(s, cutoff),
    decreases s.len(),
{
    if s[0].timestamp_ns < cutoff {
        assert(s.len() > 1);
        assert(s.drop_first().last() == s.last());
        lemma_evicted(s.drop_first(), cutoff);
        let e = evicted(s.drop_first(), cutoff);
        assert(s.skip(s.len() - e.len()) =~= s.drop_first().skip(s.drop_first().len() - e.len()));
    } else {
        assert(s.skip(0) =~= s);
    }
}

#[derive(Debug, Clone)]
pub struct RollingFrameWindow {
    window_ns: u64,
    samples: VecDeque<FrameSample>,
    total_frame_time_ns: u128,
}

impl RollingFrameWindow {
    /// The total is the sum of the frame times in the window, and every
    /// frame time kept is positive.
    pub closed spec fn wf(self) -> bool {
        &&& self.total_frame_time_ns as nat == sum_frame_times(self.samples@)
        &&& forall|i: int| 0 <= i < self.samples@.len() ==> (#[trigger] self.samples@[i]).frame_time_ns > 0
    }

    /// The samples in the window, oldest first.
    pub closed spec fn samples(self) -> Seq<FrameSample> {
        self.samples@
    }

    /// The width of the window.
    pub closed spec fn width(self) -> u64 {
        self.window_ns
    }

    pub fn new(window_ns: u64) -> (r: Self)
        ensures
            r.wf(),
            r.width() == window_ns,
            r.samples() == Seq::<FrameSample>::empty(),
    {
        RollingFrameWindow { window_ns, samples: VecDeque::new(), total_frame_time_ns: 0 }
    }

    pub fn window_ns(&self) -> (r: u64)
        ensures
            r == self.width(),
    {
        self.window_ns
    }

    pub fn frame_count(&self) -> (r: usize)
        ensures
            r == self.samples().len(),
    {
        self.samples.len()
    }

    pub fn is_empty(&self) -> (r: bool)
        ensures
            r == (self.samples().len() == 0),
    {
        self.samples.len() == 0
    }

    /// The sum of the frame times in the window.
    pub fn total_frame_time_ns(&self) -> (r: u128)
        requires
            self.wf(),
        ensures
            r == sum_frame_times(self.samples()),
    {
        self.total_frame_time_ns
    }

    /// Adds a frame presented at `timestamp_ns` and drops the frames older
    /// than the window before it; a zero frame time is refused. An accepted
    /// frame is always the newest frame of the window, and the oldest frame
    /// kept is within the window.
    pub fn push_frame_time(&mut self, timestamp_ns: u64, frame_time_ns: u64) -> (r: bool)
        requires
            old(self).wf(),
        ensures
            final(self).wf(),
            r == (frame_time_ns > 0),
            final(self).width() == old(self).width(),
            !r ==> final(self).samples() == old(self).samples(),
            r ==> final(self).samples() == evicted(
                old(self).samples().push(FrameSample { timestamp_ns, frame_time_ns }),
                cutoff_for(timestamp_ns, old(self).width()),
            ),
            r ==> final(self).samples().len() >= 1,
            r ==> final(self).samples().last() == (FrameSample { timestamp_ns, frame_time_ns }),
            r ==> final(self).samples()[0].timestamp_ns >= cutoff_for(
                timestamp_ns,
                old(self).width(),
            ),
    {
        if frame_time_ns == 0 {
            return false;
        }
        let sample = FrameSample { timestamp_ns, frame_time_ns };
        let ghost old_samples = self.samples@;
        proof {
            lemma_sum_bound(old_samples);
            assert(old_samples.len() == self.samples.len());
            assert(old_samples.len() * (u64::MAX as nat) + frame_time_ns <= u128::MAX) by (
            nonlinear_arith)
                requires
                    old_samples.len() <= usize::MAX,
                    usize::MAX <= u64::MAX,
                    frame_time_ns <= u64::MAX,
            ;
            lemma_sum_push(old_samples, sample);
        }
        self.samples.push_back(sample);
        self.total_frame_time_ns = self.total_frame_time_ns + frame_time_ns as u128;
        let cutoff = timestamp_ns.saturating_sub(self.window_ns);
        self.evict_old(cutoff);
        proof {
            lemma_evicted(old_samples.push(sample), cutoff);
        }
        true
    }

    pub fn clear(&mut self)
        ensures
            final(self).wf(),
            final(self).width() == old(self).width(),
            final(self).samples() == Seq::<FrameSample>::empty(),
    {
        let window_ns = self.window_ns;
        *self = RollingFrameWindow { window_ns, samples: VecDeque::new(), total_frame_time_ns: 0 };
    }

    /// The frame times in the window, oldest first; each is positive.
    pub fn frame_times_ns(&self) -> (r: Vec<u64>)
        ensures
            r@.len() == self.samples().len(),
            forall|i: int| 0 <= i < r@.len() ==> r@[i] == self.samples()[i].frame_time_ns,
            self.wf() ==> forall|i: int| 0 <= i < r@.len() ==> #[trigger] r@[i] > 0,
    {
        let mut out: Vec<u64> = Vec::new();
        let mut i: usize = 0;
        while i < self.samples.len()
            invariant
                0 <= i <= self.samples@.len(),
                out@.len() == i,
                forall|k: int| 0 <= k < i ==> out@[k] == self.samples@[k].frame_time_ns,
            decreases self.samples.len() - i,
        {
            out.push(self.samples[i].frame_time_ns);
            i += 1;
        }
        out
    }

    /// Drops the samples at the front that are older than `cutoff`.
    fn evict_old(&mut self, cutoff: u64)
        requires
            old(self).wf(),
        ensures
            final(self).wf(),
            final(self).width() == old(self).width(),
            final(self).samples() == evicted(old(self).samples(), cutoff),
    {
        let ghost original = self.samples@;
        while self.samples.len() > 0 && self.samples[0].timestamp_ns < cutoff
            invariant
                self.wf(),
                self.window_ns == old(self).window_ns,
                evicted(self.samples@, cutoff) == evicted(original, cutoff),
            decreases self.samples@.len(),
        {
            let ghost before = self.samples@;
            let removed = self.samples.pop_front();
            match removed {
                Some(front) => {
                    assert(self.samples@ =~= before.drop_first());
                    self.total_frame_time_ns = self.total_frame_time_ns - front.frame_time_ns as u128;
                },
                None => {},
            }
        }
    }
}

} // verus!
