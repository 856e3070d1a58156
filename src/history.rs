//! Fixed-capacity rolling series of percentage samples, oldest first.
use vstd::prelude::*;
use std::collections::VecDeque;

verus! {

/// Number of samples each series keeps by default.
pub const HISTORY_CAPACITY: usize = 120;

/// A sample as it is stored: raised values are held at 100.
pub open spec fn clamp_percent(v: u64) -> u64 {
    if v > 100 {
        100
    } else {
        v
    }
}

/// The last `cap` elements of `s`, or all of them when there are fewer.
pub open spec fn keep_last(s: Seq<u64>, cap: nat) -> Seq<u64> {
    if s.len() > cap {
        s.subrange(s.len() - cap, s.len() as int)
    } else {
        s
    }
}

/// The contents after one push of `v` onto `s`.
pub open spec fn pushed(cap: nat, s: Seq<u64>, v: u64) -> Seq<u64> {
    keep_last(s.push(clamp_percent(v)), cap)
}

/// The contents after pushing every value of `vals`, in order, onto `s`.
pub open spec fn pushed_all(cap: nat, s: Seq<u64>, vals: Seq<u64>) -> Seq<u64>
    decreases vals.len(),
{
    if vals.len() == 0 {
        s
    } else {
        pushed(cap, pushed_all(cap, s, vals.drop_last()), vals.last())
    }
}

/// A rolling series: at most `capacity` samples, each in `0..=100`.
pub struct History {
    pub samples: VecDeque<u64>,
    pub capacity: usize,
}

impl History {
    /// The series holds no more samples than its capacity.
    pub open spec fn wf(&self) -> bool {
        self.samples@.len() <= self.capacity
    }

    /// An empty series of the given capacity.
    pub fn new(capacity: usize) -> (h: History)
        ensures
            h.wf(),
            h.capacity == capacity,
            h.samples@ == Seq::<u64>::empty(),
    {
        History { samples: VecDeque::new(), capacity }
    }

    /// Appends a sample, held at 100, and drops the oldest once the series is over
    /// capacity.
    pub fn push(&mut self, value: u64)
        requires
            old(self).wf(),
        ensures
            final(self).wf(),
            final(self).capacity == old(self).capacity,
            final(self).samples@ == pushed(old(self).capacity as nat, old(self).samples@, value),
    {
        let v: u64 = if value > 100 {
            100
        } else {
            value
        };
        self.samples.push_back(v);
        if self.samples.len() > self.capacity {
            let _ = self.samples.pop_front();
            assert(self.samples@ =~= keep_last(old(self).samples@.push(v), self.capacity as nat));
        }
    }

    /// The samples, oldest first.
    pub fn values(&self) -> (r: Vec<u64>)
        ensures
            r@ == self.samples@,
    {
        let mut r: Vec<u64> = Vec::new();
        let mut i: usize = 0;
        while i < self.samples.len()
            invariant
                i <= self.samples@.len(),
                r@ == self.samples@.take(i as int),
            decreases self.samples@.len() - i,
        {
            r.push(self.samples[i]);
            assert(self.samples@.take(i + 1) =~= self.samples@.take(i as int).push(
                self.samples@[i as int],
            ));
            i += 1;
        }
        assert(self.samples@.take(i as int) =~= self.samples@);
        r
    }

    /// Number of samples held.
    pub fn len(&self) -> (r: usize)
        ensures
            r == self.samples@.len(),
    {
        self.samples.len()
    }
}

/// Trimming twice to the same capacity is trimming once.
proof fn lemma_keep_last_push(x: Seq<u64>, c: u64, cap: nat)
    ensures
        keep_last(keep_last(x, cap).push(c), cap) == keep_last(x.push(c), cap),
{
    let y = keep_last(x, cap);
    if x.len() > cap {
        assert(keep_last(y.push(c), cap) =~= keep_last(x.push(c), cap));
    }
}

/// However many values are pushed, a series that starts within its capacity holds
/// exactly the last `cap` of all values seen (held at 100), oldest first, and never
/// more than `cap`.
pub proof fn lemma_history_keeps_recent(cap: nat, start: Seq<u64>, vals: Seq<u64>)
    requires
        start.len() <= cap,
    ensures
        pushed_all(cap, start, vals) == keep_last(
            start + vals.map_values(|v: u64| clamp_percent(v)),
            cap,
        ),
        pushed_all(cap, start, vals).len() <= cap,
    decreases vals.len(),
{
    let f = |v: u64| clamp_percent(v);
    if vals.len() == 0 {
        assert(start + vals.map_values(f) =~= start);
    } else {
        let d = vals.drop_last();
        lemma_history_keeps_recent(cap, start, d);
        let x = start + d.map_values(f);
        lemma_keep_last_push(x, clamp_percent(vals.last()), cap);
        assert(x.push(clamp_percent(vals.last())) =~= start + vals.map_values(f));
    }
}

} // verus!
