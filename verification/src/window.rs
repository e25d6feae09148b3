//! A rolling window over the most recent stream values, keeping their
//! running sum as entries enter at the front and fall off the back.

use vstd::prelude::*;

verus! {

/// Sum of a sequence of values, front first.
pub open spec fn seq_sum(s: Seq<i32>) -> int
    decreases s.len(),
{
    if s.len() == 0 {
        0
    } else {
        s.first() + seq_sum(s.drop_first())
    }
}

proof fn lemma_seq_sum_bound(s: Seq<i32>)
    ensures
        -(s.len() * 0x8000_0000) <= seq_sum(s) <= s.len() * 0x8000_0000,
    decreases s.len(),
{
    if s.len() > 0 {
        lemma_seq_sum_bound(s.drop_first());
    }
}

proof fn lemma_seq_sum_drop_last(s: Seq<i32>)
    requires
        s.len() > 0,
    ensures
        seq_sum(s) == seq_sum(s.drop_last()) + s.last(),
    decreases s.len(),
{
    if s.len() == 1 {
        assert(s.drop_last() =~= Seq::<i32>::empty());
        assert(s.drop_first() =~= Seq::<i32>::empty());
    } else {
        lemma_seq_sum_drop_last(s.drop_first());
        assert(s.drop_first().drop_last() =~= s.drop_last().drop_first());
        assert(s.drop_first().last() == s.last());
        assert(s.drop_last().first() == s.first());
    }
}

/// A bounded window of the most recent values, newest first.
pub struct Window {
    size: usize,
    data: Vec<i32>,
    sum: i64,
}

impl View for Window {
    type V = Seq<i32>;

    /// The values currently held, newest first.
    closed spec fn view(&self) -> Seq<i32> {
        self.data@
    }
}

impl Window {
    /// The bound the window was created with.
    pub closed spec fn spec_capacity(&self) -> int {
        self.size as int
    }

    /// The window never holds more values than its bound, and its
    /// running sum is the sum of the values held.
    pub closed spec fn wf(&self) -> bool {
        &&& self@.len() <= self.size
        &&& 1 <= self.size <= 0x8000_0000
        &&& self.sum == seq_sum(self@)
    }

    /// An empty window bounded at `size` values.
    pub fn new(size: usize) -> (r: Window)
        requires
            1 <= size <= 0x8000_0000,
        ensures
            r.wf(),
            r@ =~= Seq::<i32>::empty(),
            r.spec_capacity() == size,
    {
        Window { size, data: Vec::new(), sum: 0 }
    }

    /// Add the newest value at the front; at the bound, the oldest
    /// value falls off the back first.
    pub fn append(&mut self, entry: i32)
        requires
            old(self).wf(),
        ensures
            final(self).wf(),
            final(self).spec_capacity() == old(self).spec_capacity(),
            final(self)@ =~= (if old(self)@.len() == old(self).spec_capacity() {
                seq![entry] + old(self)@.drop_last()
            } else {
                seq![entry] + old(self)@
            }),
    {
        proof {
            lemma_seq_sum_bound(self@);
        }
        if self.data.len() == self.size {
            let out = self.data.remove(self.data.len() - 1);
            proof {
                lemma_seq_sum_drop_last(old(self)@);
                assert(old(self)@.drop_last() =~= self.data@);
                lemma_seq_sum_bound(self.data@);
            }
            self.sum = self.sum - out as i64;
        }
        proof {
            lemma_seq_sum_bound(self.data@);
        }
        self.data.insert(0, entry);
        self.sum = self.sum + entry as i64;
        proof {
            assert(self.data@.drop_first() =~= old(self)@.drop_last() || self.data@.drop_first()
                =~= old(self)@);
        }
    }

    /// The running sum of the values held.
    pub fn sum(&self) -> (r: i64)
        requires
            self.wf(),
        ensures
            r == seq_sum(self@),
    {
        self.sum
    }

    /// How many values the window currently holds.
    pub fn len(&self) -> (r: usize)
        ensures
            r == self@.len(),
    {
        self.data.len()
    }

    /// The bound the window was created with.
    pub fn capacity(&self) -> (r: usize)
        ensures
            r == self.spec_capacity(),
    {
        self.size
    }
}

} // verus!
