//! Allocates the indices of a small array.
use vstd::prelude::*;

verus! {

/// The number of indices that one word can track.
pub const MAX_CAPACITY: usize = 64;

/// Tracks which indices of an array are in use, one bit for each.
pub struct IndexAllocWord {
    bits: u64,
    capacity: u8,
}

spec fn bit(bits: u64, i: u8) -> bool {
    bits & (1u64 << (i as u64)) != 0
}

proof fn lemma_set_bit(bits: u64, i: u8, j: u8)
    requires
        i < 64,
        j < 64,
    ensures
        bit(bits | (1u64 << (i as u64)), j) == (bit(bits, j) || i == j),
{
    let i = i as u64;
    let j = j as u64;
    assert(((bits | (1u64 << i)) & (1u64 << j) != 0) == (bits & (1u64 << j) != 0 || i == j))
        by (bit_vector)
        requires
            i < 64,
            j < 64,
    ;
}

proof fn lemma_clear_bit(bits: u64, i: u8, j: u8)
    requires
        i < 64,
        j < 64,
    ensures
        bit(bits & !(1u64 << (i as u64)), j) == (bit(bits, j) && i != j),
{
    let i = i as u64;
    let j = j as u64;
    assert(((bits & !(1u64 << i)) & (1u64 << j) != 0) == (bits & (1u64 << j) != 0 && i != j))
        by (bit_vector)
        requires
            i < 64,
            j < 64,
    ;
}

impl View for IndexAllocWord {
    type V = Set<u8>;

    /// The indices that are in use.
    closed spec fn view(&self) -> Set<u8> {
        Set::new(|i: u8| i < 64 && bit(self.bits, i))
    }
}

impl IndexAllocWord {
    /// The number of indices.
    pub closed spec fn spec_capacity(self) -> nat {
        self.capacity as nat
    }

    /// Every index in use is below the capacity.
    pub closed spec fn wf(self) -> bool {
        &&& self.capacity <= 64
        &&& forall|i: u8| #[trigger] self@.contains(i) ==> i < self.capacity
    }

    /// Every index in use is below the capacity, which is at most 64.
    pub proof fn lemma_wf(self)
        requires
            self.wf(),
        ensures
            self.spec_capacity() <= MAX_CAPACITY,
            forall|i: u8| #[trigger] self@.contains(i) ==> i < self.spec_capacity(),
    {
    }

    /// The indices below `capacity`, none of which is in use.
    pub fn with_capacity(capacity: u8) -> (r: IndexAllocWord)
        requires
            capacity <= MAX_CAPACITY,
        ensures
            r.wf(),
            r@ == Set::<u8>::empty(),
            r.spec_capacity() == capacity,
    {
        let r = IndexAllocWord { bits: 0, capacity };
        assert forall|i: u8| i < 64 implies !bit(0, i) by {
            let i = i as u64;
            assert(0u64 & (1u64 << i) == 0) by (bit_vector);
        }
        assert(r@ =~= Set::<u8>::empty());
        r
    }

    /// The number of indices.
    pub fn capacity(&self) -> (r: u8)
        ensures
            r == self.spec_capacity(),
    {
        self.capacity
    }

    /// Takes the lowest index that is not in use, if there is one.
    pub fn allocate(&mut self) -> (r: Option<u8>)
        requires
            old(self).wf(),
        ensures
            final(self).wf(),
            final(self).spec_capacity() == old(self).spec_capacity(),
            match r {
                Some(idx) => {
                    &&& idx < old(self).spec_capacity()
                    &&& !old(self)@.contains(idx)
                    &&& forall|i: u8| i < idx ==> #[trigger] old(self)@.contains(i)
                    &&& final(self)@ == old(self)@.insert(idx)
                },
                None => {
                    &&& forall|i: u8|
                        i < old(self).spec_capacity() ==> #[trigger] old(self)@.contains(i)
                    &&& final(self)@ == old(self)@
                },
            },
    {
        let mut idx: u8 = 0;
        while idx < self.capacity
            invariant
                *self == *old(self),
                self.wf(),
                idx <= self.capacity,
                self.capacity <= 64,
                forall|i: u8| i < idx ==> #[trigger] self@.contains(i),
            decreases self.capacity - idx,
        {
            if self.bits & (1u64 << (idx as u64)) == 0 {
                let ghost before = self.bits;
                self.bits = self.bits | (1u64 << (idx as u64));
                proof {
                    assert forall|i: u8| self@.contains(i) == old(self)@.insert(idx).contains(i) by {
                        if i < 64 {
                            lemma_set_bit(before, idx, i);
                        }
                    }
                    assert(self@ =~= old(self)@.insert(idx));
                }
                return Some(idx);
            }
            idx += 1;
        }
        None
    }

    /// Gives back an index that is in use.
    pub fn free(&mut self, idx: u8)
        requires
            old(self).wf(),
            old(self)@.contains(idx),
        ensures
            final(self).wf(),
            final(self).spec_capacity() == old(self).spec_capacity(),
            final(self)@ == old(self)@.remove(idx),
    {
        self.bits = self.bits & !(1u64 << (idx as u64));
        proof {
            assert forall|i: u8| self@.contains(i) == old(self)@.remove(idx).contains(i) by {
                if i < 64 {
                    lemma_clear_bit(old(self).bits, idx, i);
                }
            }
            assert(self@ =~= old(self)@.remove(idx));
        }
    }
}

} // verus!
