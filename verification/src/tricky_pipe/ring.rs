//! A bounded queue in a ring of cells.
//!
//! This is Dmitry Vyukov's bounded queue: each cell has a sequence number, which
//! tells whether the cell holds an item to be taken, or has room for one to be
//! put, when the position of the queue gets to it.
use vstd::arithmetic::power2::{
    is_pow2, is_pow2_equiv, lemma2_to64, lemma_pow2_adds, lemma_pow2_pos,
    lemma_pow2_strictly_increases, lemma_pow2_unfold, pow2,
};
use vstd::prelude::*;

verus! {

/// A cell of a queue.
pub struct QCell<T> {
    data: Option<T>,
    sequence: usize,
}

/// A queue in a ring of cells.
pub struct Ring<T> {
    cells: Vec<QCell<T>>,
    dequeue_pos: usize,
    enqueue_pos: usize,
    /// The number of items that were taken.
    taken: Ghost<int>,
    /// The items that were put and not taken.
    items: Ghost<Seq<T>>,
}

/// The number of positions: they wrap around after the largest.
pub open spec fn positions() -> int {
    usize::MAX + 1
}

/// Whether a queue can have `n` cells: there must be two at least, and positions
/// must wrap around at the end of the ring.
pub open spec fn is_capacity(n: nat) -> bool {
    n > 1 && is_pow2(n as int) && n <= usize::MAX
}

impl<T> QCell<T> {
    /// The sequence number of the cell.
    pub closed spec fn seq(self) -> usize {
        self.sequence
    }

    /// The item in the cell.
    pub closed spec fn item(self) -> Option<T> {
        self.data
    }

    /// A vacant cell with the given sequence number.
    pub fn new(seq: usize) -> (r: QCell<T>)
        ensures
            r.seq() == seq,
            r.item() is None,
    {
        QCell { data: None, sequence: seq }
    }
}

/// What the sequence number of a cell tells someone who wants to use the cell.
#[derive(Copy, Clone, Debug, PartialEq, Eq, Structural)]
pub enum CellStep {
    /// The cell is ready.
    Ready,
    /// The cell is not ready yet.
    Wait,
    /// The cell has been used by others already: the position is out of date.
    Retry,
}

/// What to do, given the sequence number of a cell, and the one that it has when it
/// is ready. Sequence numbers more than half of all positions ahead count as behind.
pub open spec fn spec_cell_step(seq: usize, due: usize) -> CellStep {
    let dif = (seq - due) % positions();
    if dif == 0 {
        CellStep::Ready
    } else if dif >= positions() / 2 {
        CellStep::Wait
    } else {
        CellStep::Retry
    }
}

/// Decides what to do, given the sequence number of a cell, and the one that it has
/// when it is ready.
pub fn cell_step(seq: usize, due: usize) -> (r: CellStep)
    ensures
        r == spec_cell_step(seq, due),
{
    let dif: usize = seq.wrapping_sub(due);
    proof {
        if seq >= due {
            vstd::arithmetic::div_mod::lemma_small_mod((seq - due) as nat, positions() as nat);
        } else {
            vstd::arithmetic::div_mod::lemma_mod_add_multiples_vanish(seq - due, positions());
            vstd::arithmetic::div_mod::lemma_small_mod(
                (seq - due + positions()) as nat,
                positions() as nat,
            );
        }
    }
    if dif == 0 {
        CellStep::Ready
    } else if dif > usize::MAX / 2 {
        CellStep::Wait
    } else {
        CellStep::Retry
    }
}

/// The position after `pos`.
pub open spec fn next_pos(pos: usize) -> usize {
    if pos < usize::MAX {
        (pos + 1) as usize
    } else {
        0
    }
}

/// The cell for the `n`-th item ever put into a ring of `len` cells.
#[verifier::opaque]
pub open spec fn at(n: int, len: int) -> int {
    n % len
}

/// The position of the `n`-th item ever put into a ring.
#[verifier::opaque]
pub open spec fn pos_of(n: int) -> int {
    n % positions()
}

/// The ring wraps around with the positions.
pub(super) proof fn lemma_capacity(len: nat)
    requires
        is_capacity(len),
    ensures
        2 * len <= positions(),
        positions() % len as int == 0,
{
    is_pow2_equiv(len as int);
    let k = choose|k: nat| vstd::arithmetic::power::pow(2, k) == len;
    let bits = usize::BITS as nat;
    lemma2_to64();
    assert(pow2(bits) == positions());
    if k >= bits {
        if k > bits {
            lemma_pow2_strictly_increases(bits, k);
        }
        assert(false);
    }
    let rest = (bits - k) as nat;
    lemma_pow2_adds(k, rest);
    lemma_pow2_unfold(rest);
    lemma_pow2_pos((rest - 1) as nat);
    let half = pow2((rest - 1) as nat) as int;
    assert(positions() == len * (2 * half));
    assert(2 * len <= len * (2 * half)) by (nonlinear_arith)
        requires
            half >= 1,
            len > 1,
    ;
    vstd::arithmetic::div_mod::lemma_mod_multiples_basic(2 * half, len as int);
    assert(len * (2 * half) == (2 * half) * len) by (nonlinear_arith);
}

pub(super) proof fn lemma_at(n: int, m: int, len: nat)
    requires
        is_capacity(len),
        0 <= n <= m,
    ensures
        0 <= at(n, len as int) < len,
        0 <= at(m, len as int) < len,
        at(n + len, len as int) == at(n, len as int),
        0 < m - n < len ==> at(n, len as int) != at(m, len as int),
{
    reveal(at);
    let len = len as int;
    vstd::arithmetic::div_mod::lemma_mod_bound(n, len);
    vstd::arithmetic::div_mod::lemma_mod_bound(m, len);
    vstd::arithmetic::div_mod::lemma_mod_add_multiples_vanish(n, len);
    if 0 < m - n < len && n % len == m % len {
        vstd::arithmetic::div_mod::lemma_mod_equivalence(m, n, len);
        vstd::arithmetic::div_mod::lemma_small_mod((m - n) as nat, len as nat);
    }
}

pub(super) proof fn lemma_at_pos(n: int, len: nat)
    requires
        is_capacity(len),
        0 <= n,
    ensures
        0 <= pos_of(n) <= usize::MAX,
        pos_of(n) % len as int == at(n, len as int),
{
    reveal(at);
    reveal(pos_of);
    lemma_capacity(len);
    let len = len as int;
    let times = positions() / len;
    vstd::arithmetic::div_mod::lemma_mod_bound(n, positions());
    vstd::arithmetic::div_mod::lemma_fundamental_div_mod(positions(), len);
    assert(times > 0) by (nonlinear_arith)
        requires
            positions() == len * times + 0,
            len > 0,
            positions() > 0,
    ;
    vstd::arithmetic::div_mod::lemma_mod_mod(n, len, times);
}

pub(super) proof fn lemma_pos(n: int, d: int)
    requires
        0 <= n,
        0 <= d < positions(),
    ensures
        pos_of(n + d) == if pos_of(n) + d < positions() {
            pos_of(n) + d
        } else {
            pos_of(n) + d - positions()
        },
        0 <= pos_of(n) < positions(),
        (pos_of(n + d) - pos_of(n)) % positions() == d,
        (pos_of(n) - pos_of(n + d)) % positions() == if d == 0 {
            0
        } else {
            positions() - d
        },
{
    reveal(pos_of);
    let m = positions();
    vstd::arithmetic::div_mod::lemma_mod_bound(n, m);
    vstd::arithmetic::div_mod::lemma_fundamental_div_mod(n, m);
    vstd::arithmetic::div_mod::lemma_fundamental_div_mod(n + d, m);
    let r = n % m;
    if r + d < m {
        vstd::arithmetic::div_mod::lemma_fundamental_div_mod_converse(n + d, m, n / m, r + d);
        vstd::arithmetic::div_mod::lemma_small_mod(d as nat, m as nat);
        if d > 0 {
            vstd::arithmetic::div_mod::lemma_mod_add_multiples_vanish(-d, m);
            vstd::arithmetic::div_mod::lemma_small_mod((m - d) as nat, m as nat);
        }
    } else {
        assert(m * (n / m) + m == m * (n / m + 1)) by (nonlinear_arith);
        vstd::arithmetic::div_mod::lemma_fundamental_div_mod_converse(
            n + d,
            m,
            n / m + 1,
            r + d - m,
        );
        vstd::arithmetic::div_mod::lemma_mod_add_multiples_vanish(d - m, m);
        vstd::arithmetic::div_mod::lemma_small_mod(d as nat, m as nat);
        vstd::arithmetic::div_mod::lemma_small_mod((m - d) as nat, m as nat);
    }
}

/// The ring of cells holds `items`, of which the first was the `taken`-th to be
/// put. The cell of an item has the position after its own as sequence number; a
/// vacant cell has the position that it is next used for.
#[verifier::opaque]
spec fn holds<T>(cells: Seq<QCell<T>>, head: usize, tail: usize, taken: int, items: Seq<T>) -> bool {
    let len = cells.len() as int;
    &&& is_capacity(cells.len())
    &&& 0 <= taken
    &&& items.len() <= len
    &&& head == pos_of(taken)
    &&& tail == pos_of(taken + items.len())
    &&& forall|n: int|
        taken <= n < taken + items.len() ==> cells[#[trigger] at(n, len)].sequence == pos_of(n + 1)
            && cells[at(n, len)].data == Some(items[n - taken])
    &&& forall|n: int|
        taken + items.len() <= n < taken + len ==> cells[#[trigger] at(n, len)].sequence == pos_of(
            n,
        ) && cells[at(n, len)].data is None
}

proof fn lemma_holds_nothing<T>(cells: Seq<QCell<T>>)
    requires
        is_capacity(cells.len()),
        forall|i: int|
            0 <= i < cells.len() ==> (#[trigger] cells[i]).sequence == i && cells[i].data is None,
    ensures
        holds(cells, 0, 0, 0, Seq::empty()),
{
    reveal(holds);
    let len = cells.len() as int;
    lemma_pos(0, 0);
    assert(pos_of(0) == 0) by {
        reveal(pos_of);
    }
    assert forall|n: int| 0 <= n < len implies cells[#[trigger] at(n, len)].sequence == pos_of(n)
        && cells[at(n, len)].data is None by {
        lemma_capacity(cells.len());
        lemma_pos(0, n);
        reveal(at);
        vstd::arithmetic::div_mod::lemma_small_mod(n as nat, len as nat);
    }
}

/// What a ring tells someone who is to take an item.
proof fn lemma_head<T>(cells: Seq<QCell<T>>, head: usize, tail: usize, taken: int, items: Seq<T>)
    requires
        holds(cells, head, tail, taken, items),
    ensures
        ({
            let i = head as int % cells.len() as int;
            &&& 0 <= i < cells.len()
            &&& items.len() > 0 ==> (cells[i].sequence - pos_of(taken + 1)) % positions() == 0
                && cells[i].data == Some(items[0])
            &&& items.len() == 0 ==> (cells[i].sequence - pos_of(taken + 1)) % positions()
                == positions() - 1
            &&& pos_of(taken + 1) == if head + 1 < positions() {
                head + 1
            } else {
                0
            }
        }),
{
    reveal(holds);
    let t = taken;
    lemma_at(t, t, cells.len());
    lemma_at_pos(t, cells.len());
    lemma_pos(t, 1);
    assert(cells[at(t, cells.len() as int)].sequence == if items.len() > 0 {
        pos_of(t + 1)
    } else {
        pos_of(t)
    });
}

/// What a ring tells someone who is to put an item.
proof fn lemma_tail<T>(cells: Seq<QCell<T>>, head: usize, tail: usize, taken: int, items: Seq<T>)
    requires
        holds(cells, head, tail, taken, items),
    ensures
        ({
            let i = tail as int % cells.len() as int;
            &&& 0 <= i < cells.len()
            &&& items.len() < cells.len() ==> (cells[i].sequence - tail) % positions() == 0
            &&& items.len() == cells.len() ==> (cells[i].sequence - tail) % positions()
                == positions() - (cells.len() - 1)
            &&& cells.len() <= positions() / 2
            &&& items.len() <= cells.len()
            &&& cells.len() > 1
        }),
{
    reveal(holds);
    let len = cells.len() as int;
    let end = taken + items.len();
    lemma_capacity(cells.len());
    lemma_at(end, end, cells.len());
    lemma_at_pos(end, cells.len());
    if items.len() < cells.len() {
        assert(cells[at(end, len)].sequence == pos_of(end));
    } else {
        let t = taken;
        lemma_at(t, t, cells.len());
        assert(cells[at(t, len)].sequence == pos_of(t + 1));
        lemma_pos(t + 1, len - 1);
    }
}

/// The ring after an item was taken.
proof fn lemma_take<T>(
    cells: Seq<QCell<T>>,
    head: usize,
    tail: usize,
    taken: int,
    items: Seq<T>,
    cell: QCell<T>,
    next: usize,
)
    requires
        holds(cells, head, tail, taken, items),
        items.len() > 0,
        cell.data is None,
        cell.sequence == pos_of(taken + cells.len()),
        next == pos_of(taken + 1),
    ensures
        holds(
            cells.update(head as int % cells.len() as int, cell),
            next,
            tail,
            taken + 1,
            items.drop_first(),
        ),
{
    reveal(holds);
    let t = taken;
    let len = cells.len() as int;
    lemma_at(t, t, cells.len());
    lemma_at_pos(t, cells.len());
    let after = cells.update(at(t, len), cell);
    let rest = items.drop_first();
    assert forall|n: int| t + 1 <= n < t + 1 + rest.len() implies after[#[trigger] at(
        n,
        len,
    )].sequence == pos_of(n + 1) && after[at(n, len)].data == Some(rest[n - (t + 1)]) by {
        lemma_at(t, n, cells.len());
        assert(cells[at(n, len)].data == Some(items[n - t]));
    }
    assert forall|n: int| t + 1 + rest.len() <= n < t + 1 + len implies after[#[trigger] at(
        n,
        len,
    )].sequence == pos_of(n) && after[at(n, len)].data is None by {
        lemma_at(t, n, cells.len());
        if n < t + len {
            assert(cells[at(n, len)].data is None);
        }
    }
}

/// The ring after an item was put.
proof fn lemma_put<T>(
    cells: Seq<QCell<T>>,
    head: usize,
    tail: usize,
    taken: int,
    items: Seq<T>,
    cell: QCell<T>,
    next: usize,
    item: T,
)
    requires
        holds(cells, head, tail, taken, items),
        items.len() < cells.len(),
        cell.data == Some(item),
        cell.sequence == pos_of(taken + items.len() + 1),
        next == pos_of(taken + items.len() + 1),
    ensures
        holds(
            cells.update(tail as int % cells.len() as int, cell),
            head,
            next,
            taken,
            items.push(item),
        ),
{
    reveal(holds);
    let end = taken + items.len();
    let len = cells.len() as int;
    lemma_at(end, end, cells.len());
    lemma_at_pos(end, cells.len());
    let after = cells.update(at(end, len), cell);
    let more = items.push(item);
    assert forall|n: int| taken <= n < taken + more.len() implies after[#[trigger] at(
        n,
        len,
    )].sequence == pos_of(n + 1) && after[at(n, len)].data == Some(more[n - taken]) by {
        lemma_at(n, end, cells.len());
        if n < end {
            assert(cells[at(n, len)].data == Some(items[n - taken]));
        }
    }
    assert forall|n: int| taken + more.len() <= n < taken + len implies after[#[trigger] at(
        n,
        len,
    )].sequence == pos_of(n) && after[at(n, len)].data is None by {
        lemma_at(end, n, cells.len());
        assert(cells[at(n, len)].data is None);
    }
}

impl<T> View for Ring<T> {
    type V = Seq<T>;

    /// The items in the queue, the oldest first.
    closed spec fn view(&self) -> Seq<T> {
        self.items@
    }
}

impl<T> Ring<T> {
    /// The number of cells.
    pub closed spec fn spec_capacity(self) -> nat {
        self.cells@.len()
    }

    /// The cells hold the items.
    pub closed spec fn wf(self) -> bool {
        holds(self.cells@, self.dequeue_pos, self.enqueue_pos, self.taken@, self.items@)
    }

    /// There are never more items than cells.
    pub proof fn lemma_bounded(self)
        requires
            self.wf(),
        ensures
            self@.len() <= self.spec_capacity(),
            is_capacity(self.spec_capacity()),
    {
        reveal(holds);
    }

    /// A ring of the given cells, which is not in order yet.
    pub fn uninit(cells: Vec<QCell<T>>) -> (r: Ring<T>)
        ensures
            r.spec_capacity() == cells@.len(),
            r@ == Seq::<T>::empty(),
    {
        Ring {
            cells,
            dequeue_pos: 0,
            enqueue_pos: 0,
            taken: Ghost(0),
            items: Ghost(Seq::empty()),
        }
    }

    /// Vacates all cells, and puts them in order.
    pub fn init(&mut self)
        requires
            is_capacity(old(self).spec_capacity()),
        ensures
            final(self).wf(),
            final(self)@ == Seq::<T>::empty(),
            final(self).spec_capacity() == old(self).spec_capacity(),
    {
        let mut i: usize = 0;
        while i < self.cells.len()
            invariant
                i <= self.cells@.len(),
                self.cells@.len() == old(self).cells@.len(),
                forall|j: int|
                    0 <= j < i ==> (#[trigger] self.cells@[j]).sequence == j
                        && self.cells@[j].data is None,
            decreases self.cells@.len() - i,
        {
            self.cells.set(i, QCell::new(i));
            i += 1;
        }
        self.dequeue_pos = 0;
        self.enqueue_pos = 0;
        proof {
            self.taken = Ghost(0);
            self.items = Ghost(Seq::empty());
            lemma_holds_nothing(self.cells@);
        }
    }

    /// Takes the item at the front of the queue, if there is one.
    pub fn dequeue(&mut self) -> (r: Option<T>)
        requires
            old(self).wf(),
        ensures
            final(self).wf(),
            final(self).spec_capacity() == old(self).spec_capacity(),
            match r {
                Some(item) => {
                    &&& old(self)@.len() > 0
                    &&& item == old(self)@[0]
                    &&& final(self)@ == old(self)@.drop_first()
                },
                None => old(self)@.len() == 0 && final(self)@ == old(self)@,
            },
    {
        let ghost cells = self.cells@;
        let ghost taken = self.taken@;
        let len: usize = self.cells.len();
        let pos: usize = self.dequeue_pos;
        proof {
            lemma_head(cells, pos, self.enqueue_pos, taken, self.items@);
            self.lemma_bounded();
            lemma_capacity(len as nat);
            lemma_taken(cells, pos, self.enqueue_pos, taken, self.items@);
        }
        let i: usize = pos % len;
        let next: usize = pos.wrapping_add(1);
        if let CellStep::Ready = cell_step(self.cells[i].sequence, next) {
            let turn: usize = pos.wrapping_add(len - 1).wrapping_add(1);
            let mut cell = QCell::new(turn);
            proof {
                lemma_take(cells, pos, self.enqueue_pos, taken, self.items@, cell, next);
            }
            self.cells.set_and_swap(i, &mut cell);
            self.dequeue_pos = next;
            proof {
                self.taken = Ghost(taken + 1);
                self.items = Ghost(self.items@.drop_first());
            }
            cell.data
        } else {
            None
        }
    }

    /// Puts an item at the end of the queue. If the queue is full, the item is
    /// handed back.
    pub fn enqueue(&mut self, item: T) -> (r: Result<(), T>)
        requires
            old(self).wf(),
        ensures
            final(self).wf(),
            final(self).spec_capacity() == old(self).spec_capacity(),
            match r {
                Ok(_) => {
                    &&& old(self)@.len() < old(self).spec_capacity()
                    &&& final(self)@ == old(self)@.push(item)
                },
                Err(back) => {
                    &&& old(self)@.len() == old(self).spec_capacity()
                    &&& back == item
                    &&& final(self)@ == old(self)@
                },
            },
    {
        let ghost cells = self.cells@;
        let len: usize = self.cells.len();
        let pos: usize = self.enqueue_pos;
        proof {
            lemma_tail(cells, self.dequeue_pos, pos, self.taken@, self.items@);
            lemma_put_next(cells, self.dequeue_pos, pos, self.taken@, self.items@);
        }
        let i: usize = pos % len;
        if let CellStep::Ready = cell_step(self.cells[i].sequence, pos) {
            let next: usize = pos.wrapping_add(1);
            let cell = QCell { data: Some(item), sequence: next };
            proof {
                lemma_put(
                    cells,
                    self.dequeue_pos,
                    pos,
                    self.taken@,
                    self.items@,
                    cell,
                    next,
                    item,
                );
            }
            self.cells.set(i, cell);
            self.enqueue_pos = next;
            proof {
                self.items = Ghost(self.items@.push(item));
            }
            Ok(())
        } else {
            Err(item)
        }
    }
}

proof fn lemma_taken<T>(cells: Seq<QCell<T>>, head: usize, tail: usize, taken: int, items: Seq<T>)
    requires
        holds(cells, head, tail, taken, items),
    ensures
        head == pos_of(taken),
        0 <= taken,
        pos_of(taken + cells.len()) == if head + cells.len() < positions() {
            head + cells.len()
        } else {
            head + cells.len() - positions()
        },
{
    reveal(holds);
    lemma_capacity(cells.len());
    lemma_pos(taken, cells.len() as int);
}

proof fn lemma_put_next<T>(
    cells: Seq<QCell<T>>,
    head: usize,
    tail: usize,
    taken: int,
    items: Seq<T>,
)
    requires
        holds(cells, head, tail, taken, items),
    ensures
        pos_of(taken + items.len() + 1) == if tail + 1 < positions() {
            tail + 1
        } else {
            0
        },
{
    reveal(holds);
    lemma_pos(taken + items.len(), 1);
}

/// A cell is ready exactly when it has the sequence number that is due. One that is behind,
/// by up to half of all numbers, is to be waited for; one that is ahead, by less than half,
/// was used by others meanwhile. Numbers count on from the largest to zero.
pub proof fn cells_are_ready_when_due(seq: usize, due: usize, d: int)
    requires
        0 < d <= positions() / 2,
    ensures
        spec_cell_step(seq, due) == CellStep::Ready <==> seq == due,
        seq == due - d || seq == due - d + positions() ==> spec_cell_step(seq, due)
            == CellStep::Wait,
        d < positions() / 2 && (seq == due + d || seq == due + d - positions()) ==> spec_cell_step(
            seq,
            due,
        ) == CellStep::Retry,
{
    let m = positions();
    assert(m % 2 == 0) by {
        lemma2_to64();
    }
    if seq >= due {
        vstd::arithmetic::div_mod::lemma_small_mod((seq - due) as nat, m as nat);
    } else {
        vstd::arithmetic::div_mod::lemma_mod_add_multiples_vanish(seq - due, m);
        vstd::arithmetic::div_mod::lemma_small_mod((seq - due + m) as nat, m as nat);
    }
}

} // verus!
