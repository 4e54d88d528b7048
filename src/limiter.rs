//! The window of the look-ahead limiter: the last `lookahead` output samples, oldest
//! first, with `lookahead` held between 1 and 2048. Until the window is full the limiter
//! emits silence; after that each new sample releases the oldest one.
use std::collections::VecDeque;
use vstd::prelude::*;

verus! {

/// Largest look-ahead, in samples.
pub const MAX_LOOKAHEAD: usize = 2048;

/// A requested look-ahead held to `1..=2048`.
pub open spec fn clamp_lookahead(n: usize) -> usize {
    if n < 1 {
        1
    } else if n > MAX_LOOKAHEAD {
        MAX_LOOKAHEAD
    } else {
        n
    }
}

/// The most recent samples, oldest first.
pub struct LookaheadWindow<T> {
    pub samples: VecDeque<T>,
    /// Samples the window holds when full.
    pub lookahead: usize,
}

/// The value of `n` held to `1..=2048`.
pub fn clamped_lookahead(n: usize) -> (r: usize)
    ensures
        r == clamp_lookahead(n),
{
    if n < 1 {
        1
    } else if n > MAX_LOOKAHEAD {
        MAX_LOOKAHEAD
    } else {
        n
    }
}

impl<T: Copy> LookaheadWindow<T> {
    /// The samples in the window, oldest first.
    pub open spec fn view(&self) -> Seq<T> {
        self.samples@
    }

    pub open spec fn wf(&self) -> bool {
        &&& 1 <= self.lookahead <= MAX_LOOKAHEAD
        &&& self.samples@.len() <= self.lookahead
    }

    /// An empty window of `lookahead` samples, held to `1..=2048`.
    pub fn new(lookahead: usize) -> (r: Self)
        ensures
            r.wf(),
            r.lookahead == clamp_lookahead(lookahead),
            r.view().len() == 0,
    {
        LookaheadWindow { samples: VecDeque::new(), lookahead: clamped_lookahead(lookahead) }
    }

    /// Sets the look-ahead, held to `1..=2048`, and empties the window.
    pub fn set_lookahead(&mut self, lookahead: usize)
        requires
            old(self).wf(),
        ensures
            final(self).wf(),
            final(self).lookahead == clamp_lookahead(lookahead),
            final(self).view().len() == 0,
    {
        self.samples.clear();
        self.lookahead = clamped_lookahead(lookahead);
    }

    /// The number of samples in the window.
    pub fn len(&self) -> (r: usize)
        requires
            self.wf(),
        ensures
            r == self.view().len(),
    {
        self.samples.len()
    }

    /// The `i`-th oldest sample of the window.
    pub fn get(&self, i: usize) -> (r: T)
        requires
            self.wf(),
            i < self.view().len(),
        ensures
            r == self.view()[i as int],
    {
        self.samples[i]
    }

    /// Adds a sample; where the window was full its oldest sample leaves. Once the window
    /// is full, returns its oldest sample (the one the limiter emits next), else `None`.
    pub fn push(&mut self, x: T) -> (r: Option<T>)
        requires
            old(self).wf(),
        ensures
            final(self).wf(),
            final(self).lookahead == old(self).lookahead,
            final(self).view() == if old(self).view().len() < old(self).lookahead {
                old(self).view().push(x)
            } else {
                old(self).view().push(x).drop_first()
            },
            r == if final(self).view().len() == final(self).lookahead {
                Some(final(self).view()[0])
            } else {
                None::<T>
            },
    {
        self.samples.push_back(x);
        if self.samples.len() > self.lookahead {
            let _ = self.samples.pop_front();
        }
        if self.samples.len() == self.lookahead {
            Some(self.samples[0])
        } else {
            None
        }
    }
}

} // verus!
