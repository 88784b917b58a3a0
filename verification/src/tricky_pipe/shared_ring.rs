//! A ring of cells while several parties put items into it and take them.
//!
//! Whoever puts an item first moves the position of the queue on, which makes the
//! cell its own, and then stores the item and the sequence number that says so.
//! Whoever takes one moves the other position on, reads the item, and then hands
//! the cell back. Others may be at work between the two. Decisions go by what the
//! cell and the position hold at the time the position is moved on.
use super::ring::{
    at, is_capacity, lemma_at, lemma_at_pos, lemma_capacity, lemma_pos, next_pos, pos_of, positions,
    spec_cell_step, CellStep,
};
use vstd::prelude::*;

verus! {

/// The cells of a queue, and what has happened to it.
pub struct SharedRing<T> {
    /// The sequence numbers of the cells.
    pub seqs: Seq<usize>,
    /// The items in the cells.
    pub data: Seq<Option<T>>,
    /// The position at which items are taken.
    pub head: usize,
    /// The position at which items are put.
    pub tail: usize,
    /// The items for which cells were claimed, in the order in which they were.
    pub claimed: Seq<T>,
    /// Which of these were stored.
    pub stored: Set<int>,
    /// The number of items that were taken.
    pub taken: nat,
    /// The items whose cells were handed back.
    pub handed: Set<int>,
}

impl<T> SharedRing<T> {
    /// A ring of `len` cells that nobody has used yet.
    pub open spec fn new(len: nat) -> SharedRing<T> {
        SharedRing {
            seqs: Seq::new(len, |i: int| i as usize),
            data: Seq::new(len, |i: int| None),
            head: 0,
            tail: 0,
            claimed: Seq::empty(),
            stored: Set::empty(),
            taken: 0,
            handed: Set::empty(),
        }
    }

    /// Whether the cells agree with what has happened. Only what was stored is taken,
    /// and only the cells of what was taken are handed back and claimed again. The
    /// sequence number of a cell is its position until its item is stored, then the
    /// position after that, and then the position that it is next used for.
    pub open spec fn valid(self) -> bool {
        let len = self.seqs.len() as int;
        &&& is_capacity(self.seqs.len())
        &&& self.data.len() == len
        &&& self.taken <= self.claimed.len()
        &&& self.head == pos_of(self.taken as int)
        &&& self.tail == pos_of(self.claimed.len() as int)
        &&& forall|n: int| #[trigger] self.stored.contains(n) ==> 0 <= n < self.claimed.len()
        &&& forall|n: int| 0 <= n < self.taken ==> #[trigger] self.stored.contains(n)
        &&& forall|n: int| #[trigger] self.handed.contains(n) ==> 0 <= n < self.taken
        &&& forall|n: int|
            0 <= n < self.claimed.len() - len ==> #[trigger] self.handed.contains(n)
        &&& forall|n: int|
            0 <= n && self.claimed.len() - len <= n < self.claimed.len() ==> self.cell(
                #[trigger] at(n, len),
                n,
            )
        &&& forall|n: int|
            self.claimed.len() <= n < len ==> self.seqs[#[trigger] at(n, len)] == pos_of(n)
    }

    /// Whether cell `i` agrees with what has happened to the `n`-th item.
    pub open spec fn cell(self, i: int, n: int) -> bool {
        if !self.stored.contains(n) {
            self.seqs[i] == pos_of(n)
        } else if !self.handed.contains(n) {
            self.seqs[i] == pos_of(n + 1) && self.data[i] == Some(self.claimed[n])
        } else {
            self.seqs[i] == pos_of(n + self.seqs.len())
        }
    }

    /// The sequence number that someone who is to put an item looks at.
    pub open spec fn tail_seq(self) -> usize {
        self.seqs[self.tail as int % self.seqs.len() as int]
    }

    /// The sequence number that someone who is to take an item looks at.
    pub open spec fn head_seq(self) -> usize {
        self.seqs[self.head as int % self.seqs.len() as int]
    }

    /// Whether the cell that the next item would go to is free.
    pub open spec fn has_room(self) -> bool {
        self.claimed.len() < self.seqs.len() || self.handed.contains(
            self.claimed.len() - self.seqs.len(),
        )
    }

    /// Someone claims the next cell for an item.
    pub open spec fn claim(self, item: T) -> SharedRing<T> {
        SharedRing { tail: next_pos(self.tail), claimed: self.claimed.push(item), ..self }
    }

    /// The `n`-th item is stored by the one who claimed a cell for it at position
    /// `pos`.
    pub open spec fn store(self, n: int, pos: usize) -> SharedRing<T> {
        let i = pos as int % self.seqs.len() as int;
        SharedRing {
            seqs: self.seqs.update(i, next_pos(pos)),
            data: self.data.update(i, Some(self.claimed[n])),
            stored: self.stored.insert(n),
            ..self
        }
    }

    /// Someone takes the next item.
    pub open spec fn take(self) -> SharedRing<T> {
        SharedRing { head: next_pos(self.head), taken: self.taken + 1, ..self }
    }

    /// The cell of the `n`-th item is handed back by the one who took the item at
    /// position `pos`.
    pub open spec fn hand_back(self, n: int, pos: usize) -> SharedRing<T> {
        let len = self.seqs.len() as int;
        let i = pos as int % len;
        let turn = if pos + len < positions() {
            (pos + len) as usize
        } else {
            (pos + len - positions()) as usize
        };
        SharedRing {
            seqs: self.seqs.update(i, turn),
            data: self.data.update(i, None),
            handed: self.handed.insert(n),
            ..self
        }
    }
}

/// A ring that nobody has used yet is in order.
pub proof fn unused_rings_are_in_order<T>(len: nat)
    requires
        is_capacity(len),
    ensures
        SharedRing::<T>::new(len).valid(),
{
    let q = SharedRing::<T>::new(len);
    let l = len as int;
    assert(pos_of(0) == 0) by {
        reveal(pos_of);
    }
    lemma_capacity(len);
    assert forall|n: int| 0 <= n < l implies q.seqs[#[trigger] at(n, l)] == pos_of(n) by {
        lemma_pos(0, n);
        reveal(at);
        vstd::arithmetic::div_mod::lemma_small_mod(n as nat, len);
    }
}

/// An item can be put if, and only if, the cell that it would go to was handed back
/// by whoever used it last. If it was, the cell becomes that of the item, and the
/// ring stays in order. If not, the item is to wait; nobody is told to try again.
pub proof fn items_are_put_if_there_is_room<T>(q: SharedRing<T>, item: T)
    requires
        q.valid(),
    ensures
        q.has_room() ==> spec_cell_step(q.tail_seq(), q.tail) == CellStep::Ready && q.claim(
            item,
        ).valid(),
        !q.has_room() ==> spec_cell_step(q.tail_seq(), q.tail) == CellStep::Wait,
{
    let len = q.seqs.len() as int;
    let m = q.claimed.len() as int;
    lemma_capacity(q.seqs.len());
    lemma_at_pos(m, q.seqs.len());
    lemma_at(m, m, q.seqs.len());
    lemma_pos(m, 0);
    lemma_pos(m, 1);
    if m >= len {
        let c = m - len;
        lemma_at(c, c, q.seqs.len());
        assert(q.cell(at(c, len), c));
        lemma_pos(c, len);
        lemma_pos(c + 1, len - 1);
    } else {
        assert(q.seqs[at(m, len)] == pos_of(m));
    }
    if q.has_room() {
        let after = q.claim(item);
        assert(q.seqs[at(m, len)] == pos_of(m));
        assert(!q.stored.contains(m));
        assert forall|n: int|
            0 <= n && after.claimed.len() - len <= n < after.claimed.len() implies after.cell(
            #[trigger] at(n, len),
            n,
        ) by {
            if n < m {
                assert(q.cell(at(n, len), n));
            }
        }
        assert forall|n: int| 0 <= n < after.claimed.len() - len implies #[trigger] after.handed.contains(
            n,
        ) by {
            if n < m - len {
                assert(q.handed.contains(n));
            }
        }
    }
}

/// Whoever claimed a cell may store its item whenever it gets to it. The ring stays
/// in order.
pub proof fn items_may_be_stored_at_any_time<T>(q: SharedRing<T>, n: int, pos: usize)
    requires
        q.valid(),
        0 <= n < q.claimed.len(),
        !q.stored.contains(n),
        pos == pos_of(n),
    ensures
        q.store(n, pos).valid(),
{
    let len = q.seqs.len() as int;
    let after = q.store(n, pos);
    if n < q.claimed.len() - len {
        assert(q.handed.contains(n));
    }
    assert(!q.handed.contains(n));
    lemma_at_pos(n, q.seqs.len());
    lemma_pos(n, 1);
    assert forall|m: int|
        0 <= m && after.claimed.len() - len <= m < after.claimed.len() implies after.cell(
        #[trigger] at(m, len),
        m,
    ) by {
        assert(q.cell(at(m, len), m));
        if m < n {
            lemma_at(m, n, q.seqs.len());
        } else {
            lemma_at(n, m, q.seqs.len());
        }
    }
    assert forall|m: int| after.claimed.len() <= m < len implies after.seqs[#[trigger] at(m, len)]
        == pos_of(m) by {
        assert(q.seqs[at(m, len)] == pos_of(m));
        lemma_at(n, m, q.seqs.len());
    }
}

/// Items are taken in the order in which their cells were claimed, each once, and
/// none before it was stored: the oldest that was not taken yet can be taken if it
/// was stored, and if not, none can, even if later ones were stored. The ring stays
/// in order.
pub proof fn items_are_taken_in_order<T>(q: SharedRing<T>)
    requires
        q.valid(),
    ensures
        q.stored.contains(q.taken as int) ==> spec_cell_step(q.head_seq(), next_pos(q.head))
            == CellStep::Ready && q.take().valid(),
        !q.stored.contains(q.taken as int) ==> spec_cell_step(q.head_seq(), next_pos(q.head))
            == CellStep::Wait,
{
    let len = q.seqs.len() as int;
    let t = q.taken as int;
    let m = q.claimed.len() as int;
    lemma_capacity(q.seqs.len());
    lemma_at_pos(t, q.seqs.len());
    lemma_at(t, t, q.seqs.len());
    lemma_pos(t, 1);
    if t < m - len {
        assert(q.handed.contains(t));
    }
    if t < m {
        assert(!q.handed.contains(t));
        assert(q.cell(at(t, len), t));
    } else if t < len {
        assert(q.seqs[at(t, len)] == pos_of(t));
    } else {
        let c = t - len;
        lemma_at(c, c, q.seqs.len());
        assert(q.stored.contains(c));
        assert(q.cell(at(c, len), c));
        lemma_pos(c + 1, len);
    }
    if q.stored.contains(t) {
        let after = q.take();
        vstd::arithmetic::div_mod::lemma_small_mod(0, positions() as nat);
        assert forall|n: int| 0 <= n < after.claimed.len() - len implies #[trigger] after.handed.contains(
            n,
        ) by {
            assert(q.handed.contains(n));
        }
        assert forall|n: int|
            0 <= n && after.claimed.len() - len <= n < after.claimed.len() implies after.cell(
            #[trigger] at(n, len),
            n,
        ) by {
            assert(q.cell(at(n, len), n));
        }
    }
}

/// Whoever took an item finds it in its cell, and may hand the cell back, whenever
/// it gets to it. The ring stays in order.
pub proof fn cells_may_be_handed_back_at_any_time<T>(q: SharedRing<T>, n: int, pos: usize)
    requires
        q.valid(),
        0 <= n < q.taken,
        !q.handed.contains(n),
        pos == pos_of(n),
    ensures
        q.data[pos as int % q.seqs.len() as int] == Some(q.claimed[n]),
        q.hand_back(n, pos).valid(),
{
    let len = q.seqs.len() as int;
    let after = q.hand_back(n, pos);
    lemma_capacity(q.seqs.len());
    lemma_at_pos(n, q.seqs.len());
    lemma_at(n, n, q.seqs.len());
    lemma_pos(n, len);
    if n < q.claimed.len() - len {
        assert(q.handed.contains(n));
    }
    assert(q.stored.contains(n));
    assert(q.cell(at(n, len), n));
    assert forall|m: int|
        0 <= m && after.claimed.len() - len <= m < after.claimed.len() implies after.cell(
        #[trigger] at(m, len),
        m,
    ) by {
        assert(q.cell(at(m, len), m));
        if m < n {
            lemma_at(m, n, q.seqs.len());
        } else {
            lemma_at(n, m, q.seqs.len());
        }
    }
    assert forall|m: int| after.claimed.len() <= m < len implies after.seqs[#[trigger] at(m, len)]
        == pos_of(m) by {
        assert(q.seqs[at(m, len)] == pos_of(m));
        lemma_at(n, m, q.seqs.len());
    }
    assert forall|m: int| 0 <= m < after.claimed.len() - len implies #[trigger] after.handed.contains(
        m,
    ) by {
        assert(q.handed.contains(m));
    }
}

/// There are never more items in a ring than cells.
pub proof fn rings_are_bounded<T>(q: SharedRing<T>)
    requires
        q.valid(),
    ensures
        q.taken <= q.claimed.len() <= q.taken + q.seqs.len(),
{
    let last = q.claimed.len() - q.seqs.len() - 1;
    if last >= 0 {
        assert(q.handed.contains(last));
    }
}

} // verus!
