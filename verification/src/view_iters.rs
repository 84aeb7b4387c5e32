//! The run of physical offsets that a contiguous view covers.

use vstd::prelude::*;

verus! {

/// The offsets from `start` up to, and without, `end`, in rising order.
pub open spec fn offset_run(start: usize, end: usize) -> Seq<usize> {
    if start < end {
        Seq::new((end - start) as nat, |i: int| (start + i) as usize)
    } else {
        Seq::empty()
    }
}

/// Walks the physical offsets from `curr` up to, and without, `end`.
pub struct ContiguousViewIterator {
    curr: usize,
    end: usize,
}

impl ContiguousViewIterator {
    /// The offsets still to come, in the order in which `next` yields them.
    pub closed spec fn remaining(&self) -> Seq<usize> {
        offset_run(self.curr, self.end)
    }

    pub fn new(curr: usize, end: usize) -> (it: Self)
        ensures
            it.remaining() == offset_run(curr, end),
    {
        Self { curr, end }
    }

    /// The next offset, or `None` once the run is exhausted.
    pub fn next(&mut self) -> (r: Option<usize>)
        ensures
            match r {
                Some(offset) => {
                    &&& old(self).remaining().len() > 0
                    &&& offset == old(self).remaining()[0]
                    &&& final(self).remaining() == old(self).remaining().skip(1)
                },
                None => {
                    &&& old(self).remaining().len() == 0
                    &&& final(self).remaining() == old(self).remaining()
                },
            },
    {
        let curr = self.curr;
        if curr < self.end {
            self.curr = curr + 1;
            assert(self.remaining() =~= old(self).remaining().skip(1));
            Some(curr)
        } else {
            None
        }
    }
}

} // verus!
