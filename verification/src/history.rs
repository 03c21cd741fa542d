//! The bounded, chronological history of per-tick activity counts.

use std::collections::VecDeque;
use vstd::prelude::*;

verus! {

/// Number of tick samples a history keeps unless another capacity is chosen.
pub const DEFAULT_CAPACITY: usize = 100;

/// The newest `capacity` elements of `samples`, in order; all of them if
/// there are no more than `capacity`.
pub open spec fn keep_last(samples: Seq<u32>, capacity: nat) -> Seq<u32> {
    if samples.len() > capacity {
        samples.subrange(samples.len() - capacity, samples.len() as int)
    } else {
        samples
    }
}

/// The history that results from appending `sample` to `samples` under a
/// bound of `capacity`: the oldest sample leaves when the bound is exceeded.
pub open spec fn pushed(samples: Seq<u32>, capacity: nat, sample: u32) -> Seq<u32> {
    keep_last(samples.push(sample), capacity)
}

/// The history that results from appending each of `incoming`, oldest first.
pub open spec fn pushed_all(samples: Seq<u32>, capacity: nat, incoming: Seq<u32>) -> Seq<u32>
    decreases incoming.len(),
{
    if incoming.len() == 0 {
        samples
    } else {
        pushed(pushed_all(samples, capacity, incoming.drop_last()), capacity, incoming.last())
    }
}

/// A first-in, first-out window over the most recent tick samples.
///
/// The view is the sequence of samples, oldest first.
pub struct ActivityHistory {
    samples: VecDeque<u32>,
    capacity: usize,
}

impl View for ActivityHistory {
    type V = Seq<u32>;

    closed spec fn view(&self) -> Seq<u32> {
        self.samples@
    }
}

impl ActivityHistory {
    #[verifier::type_invariant]
    spec fn within_capacity(&self) -> bool {
        self.samples@.len() <= self.capacity
    }

    /// The bound on the number of samples kept.
    pub closed spec fn spec_capacity(&self) -> nat {
        self.capacity as nat
    }

    /// An empty history that keeps the default number of samples.
    pub fn new() -> (history: ActivityHistory)
        ensures
            history@ == Seq::<u32>::empty(),
            history.spec_capacity() == DEFAULT_CAPACITY,
    {
        ActivityHistory {
            samples: VecDeque::with_capacity(DEFAULT_CAPACITY),
            capacity: DEFAULT_CAPACITY,
        }
    }

    /// An empty history that keeps at most `capacity` samples.
    pub fn with_capacity(capacity: usize) -> (history: ActivityHistory)
        ensures
            history@ == Seq::<u32>::empty(),
            history.spec_capacity() == capacity,
    {
        ActivityHistory { samples: VecDeque::new(), capacity }
    }

    /// The bound on the number of samples kept.
    pub fn capacity(&self) -> (capacity: usize)
        ensures
            capacity == self.spec_capacity(),
    {
        self.capacity
    }

    /// The number of samples held, which never exceeds the capacity.
    pub fn len(&self) -> (len: usize)
        ensures
            len == self@.len(),
            len <= self.spec_capacity(),
    {
        proof {
            use_type_invariant(self);
        }
        self.samples.len()
    }

    /// Whether no sample is held.
    pub fn is_empty(&self) -> (empty: bool)
        ensures
            empty == (self@.len() == 0),
    {
        self.samples.len() == 0
    }

    /// The sample at position `index`, counted from the oldest.
    pub fn get(&self, index: usize) -> (sample: Option<u32>)
        ensures
            sample == if index < self@.len() {
                Some(self@[index as int])
            } else {
                None
            },
    {
        if index < self.samples.len() {
            Some(self.samples[index])
        } else {
            None
        }
    }

    /// Appends the newest sample, evicting the oldest one when the history
    /// is full.
    pub fn push(&mut self, sample: u32)
        ensures
            final(self)@ == pushed(old(self)@, old(self).spec_capacity(), sample),
            final(self).spec_capacity() == old(self).spec_capacity(),
            final(self)@.len() <= final(self).spec_capacity(),
    {
        proof {
            use_type_invariant(&*self);
        }
        if self.capacity == 0 {
            return;
        }
        let mut samples: VecDeque<u32> = VecDeque::new();
        core::mem::swap(&mut self.samples, &mut samples);
        if samples.len() >= self.capacity {
            samples.pop_front();
        }
        samples.push_back(sample);
        core::mem::swap(&mut self.samples, &mut samples);
    }

    /// The samples as a vector, oldest first.
    pub fn to_vec(&self) -> (samples: Vec<u32>)
        ensures
            samples@ == self@,
    {
        let mut samples: Vec<u32> = Vec::new();
        let mut i: usize = 0;
        while i < self.samples.len()
            invariant
                i <= self.samples@.len(),
                samples@ == self.samples@.subrange(0, i as int),
            decreases self.samples@.len() - i,
        {
            samples.push(self.samples[i]);
            i += 1;
        }
        samples
    }
}

/// A history never holds more samples than its capacity, whatever was
/// appended to it.
pub proof fn lemma_pushed_all_bounded(samples: Seq<u32>, capacity: nat, incoming: Seq<u32>)
    requires
        samples.len() <= capacity,
    ensures
        pushed_all(samples, capacity, incoming).len() <= capacity,
    decreases incoming.len(),
{
    if incoming.len() > 0 {
        lemma_pushed_all_bounded(samples, capacity, incoming.drop_last());
    }
}

/// Appending a run of samples leaves the newest `capacity` samples of the
/// old history followed by the run.
pub proof fn lemma_pushed_all_keeps_newest(samples: Seq<u32>, capacity: nat, incoming: Seq<u32>)
    requires
        samples.len() <= capacity,
    ensures
        pushed_all(samples, capacity, incoming) == keep_last(samples + incoming, capacity),
    decreases incoming.len(),
{
    if incoming.len() > 0 {
        lemma_pushed_all_keeps_newest(samples, capacity, incoming.drop_last());
    }
}

/// Once at least `capacity` samples have been appended to a history, it
/// holds exactly the last `capacity` of them, in the order they arrived.
pub proof fn lemma_full_history_is_newest_samples(
    samples: Seq<u32>,
    capacity: nat,
    incoming: Seq<u32>,
)
    requires
        samples.len() <= capacity,
        incoming.len() >= capacity,
    ensures
        pushed_all(samples, capacity, incoming) == incoming.subrange(
            incoming.len() - capacity,
            incoming.len() as int,
        ),
{
    lemma_pushed_all_keeps_newest(samples, capacity, incoming);
}

} // verus!
