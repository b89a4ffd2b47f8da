//! The bounded CPU-history buffer behind the chart: one sample per
//! rendered frame, tagged with the frame number, trimmed from the
//! front once it outgrows the chart's width.

use vstd::prelude::*;

verus! {

/// One chart point: the frame it was taken on and the global CPU
/// usage then, in tenths of a percent.
#[derive(Clone, Copy, Debug, PartialEq, Eq, Structural)]
pub struct CpuSample {
    pub frame: u64,
    pub cpu_tenths: u32,
}

/// What the buffer holds after appending `s` to `h` and evicting from
/// the front down to `max` entries: the `max` most recent samples, in
/// their original order.
pub open spec fn bounded_push(h: Seq<CpuSample>, s: CpuSample, max: nat) -> Seq<CpuSample> {
    let appended = h.push(s);
    if appended.len() <= max {
        appended
    } else {
        appended.skip(appended.len() - max)
    }
}

/// The rolling buffer of chart points.
#[derive(Clone, Debug)]
pub struct CpuHistory {
    pub samples: Vec<CpuSample>,
}

impl CpuHistory {
    /// An empty history.
    pub fn new() -> (r: CpuHistory)
        ensures
            r.samples@ =~= Seq::<CpuSample>::empty(),
    {
        CpuHistory { samples: Vec::new() }
    }

    /// Appends one sample, then drops the oldest entries until at most
    /// `max_len` remain. The retained samples are exactly the most
    /// recent ones, oldest first.
    pub fn record(&mut self, sample: CpuSample, max_len: usize)
        ensures
            final(self).samples@ == bounded_push(old(self).samples@, sample, max_len as nat),
            final(self).samples@.len() <= old(self).samples@.len() + 1,
            final(self).samples@.len() <= max_len || max_len == 0,
    {
        self.samples.push(sample);
        let ghost appended = self.samples@;
        while self.samples.len() > max_len
            invariant
                appended == old(self).samples@.push(sample),
                self.samples@.len() <= appended.len(),
                self.samples@.len() >= appended.len() || self.samples@.len() >= max_len,
                self.samples@ =~= appended.skip(appended.len() - self.samples@.len()),
            decreases self.samples@.len(),
        {
            self.samples.remove(0);
            proof {
                let k = appended.len() - self.samples@.len();
                assert(self.samples@ =~= appended.skip(k));
            }
        }
        proof {
            if appended.len() <= max_len {
                assert(self.samples@ =~= appended);
            }
            assert(self.samples@ =~= bounded_push(old(self).samples@, sample, max_len as nat));
        }
    }

    /// The first and last retained frame numbers: the horizontal
    /// bounds of the chart, or `None` while the buffer is empty.
    pub fn axis_bounds(&self) -> (r: Option<(u64, u64)>)
        ensures
            self.samples@.len() == 0 <==> r is None,
            self.samples@.len() > 0 ==> r == Some(
                (self.samples@.first().frame, self.samples@.last().frame),
            ),
    {
        if self.samples.len() == 0 {
            None
        } else {
            Some((self.samples[0].frame, self.samples[self.samples.len() - 1].frame))
        }
    }

    /// How many samples are retained.
    pub fn len(&self) -> (r: usize)
        ensures
            r == self.samples@.len(),
    {
        self.samples.len()
    }
}

/// The buffer never outgrows the configured maximum: a history within
/// the bound stays within it across any append, and what is retained
/// is the suffix of the appended sequence, in order.
pub proof fn lemma_history_bounded(h: Seq<CpuSample>, s: CpuSample, max: nat)
    requires
        h.len() <= max,
    ensures
        bounded_push(h, s, max).len() <= max,
        bounded_push(h, s, max).len() == vstd::math::min((h.len() + 1) as int, max as int),
        forall|k: int|
            0 <= k < bounded_push(h, s, max).len() ==> bounded_push(h, s, max)[k] == h.push(s)[k
                + (h.push(s).len() - bounded_push(h, s, max).len())],
{
    let appended = h.push(s);
    if appended.len() > max {
        assert(bounded_push(h, s, max) == appended.skip(appended.len() - max));
    }
}

} // verus!
