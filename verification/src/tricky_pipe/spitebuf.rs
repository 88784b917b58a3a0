//! A bounded queue that is set up once, and may be closed.
use super::ring::{is_capacity, QCell, Ring};
use core::marker::PhantomData;
use vstd::prelude::*;

verus! {

/// A cell of a queue.
pub type Cell<T> = QCell<T>;

/// The queue has not been set up.
pub const STATE_UNINIT: u8 = 0;

/// The queue is being set up.
pub const STATE_INITING: u8 = 1;

/// The queue is in use.
pub const STATE_SPLIT: u8 = 3;

/// The queue has been closed.
pub const STATE_CLOSED: u8 = 4;

/// Why an item could not be put into a queue. It is handed back.
#[derive(Debug, PartialEq, Eq)]
pub enum EnqueueError<T> {
    /// The queue is full.
    Full(T),
    /// The queue has been closed.
    Closed(T),
    /// The queue has not been set up.
    InternalError(T),
}

/// Why an item could not be taken from a queue.
#[derive(Debug, PartialEq, Eq)]
pub enum DequeueError {
    /// The queue has been closed, and all items were taken.
    Closed,
}

/// A bounded queue.
pub struct MpScQueue<T> {
    ring: Ring<T>,
    state: u8,
}

/// Puts items into a queue.
pub struct Sender<T> {
    marker: PhantomData<T>,
}

/// Takes items from a queue.
pub struct Receiver<T> {
    marker: PhantomData<T>,
}

/// How far a queue has come.
pub enum Stage {
    /// It has not been set up.
    Uninit,
    /// It is in use.
    Split,
    /// It has been closed.
    Closed,
}

/// The contents of a queue.
pub struct QueueView<T> {
    /// The items, the oldest first.
    pub items: Seq<T>,
    /// The number of items that there is room for.
    pub capacity: nat,
    /// How far the queue has come.
    pub stage: Stage,
}

impl<T> EnqueueError<T> {
    /// The item that could not be put into the queue.
    pub open spec fn item(self) -> T {
        match self {
            EnqueueError::Full(item) => item,
            EnqueueError::Closed(item) => item,
            EnqueueError::InternalError(item) => item,
        }
    }

    /// The item that could not be put into the queue.
    pub fn into_inner(self) -> (r: T)
        ensures
            r == self.item(),
    {
        match self {
            EnqueueError::Full(item) => item,
            EnqueueError::Closed(item) => item,
            EnqueueError::InternalError(item) => item,
        }
    }
}

impl<T> QueueView<T> {
    /// What becomes of putting `item` into the queue: an error, if any.
    pub open spec fn enqueue_error(self, item: T) -> Option<EnqueueError<T>> {
        match self.stage {
            Stage::Uninit => Some(EnqueueError::InternalError(item)),
            Stage::Closed => Some(EnqueueError::Closed(item)),
            Stage::Split => if self.items.len() == self.capacity {
                Some(EnqueueError::Full(item))
            } else {
                None
            },
        }
    }

    /// The queue after `item` was put into it, if that is possible.
    pub open spec fn after_enqueue(self, item: T) -> QueueView<T> {
        match self.enqueue_error(item) {
            Some(_) => self,
            None => QueueView { items: self.items.push(item), ..self },
        }
    }

    /// The queue after an item was taken from it, if there was one.
    pub open spec fn after_dequeue(self) -> QueueView<T> {
        if self.items.len() > 0 {
            QueueView { items: self.items.drop_first(), ..self }
        } else {
            self
        }
    }

    /// The first item, if there is one.
    pub open spec fn front(self) -> Option<T> {
        if self.items.len() > 0 {
            Some(self.items[0])
        } else {
            None
        }
    }

    /// A queue that has been set up has a fitting number of cells, and no more
    /// items than that.
    pub open spec fn valid(self) -> bool {
        &&& self.items.len() <= self.capacity || self.stage is Uninit
        &&& self.stage is Uninit ==> self.items.len() == 0
        &&& !(self.stage is Uninit) ==> is_capacity(self.capacity)
    }
}

impl<T> View for MpScQueue<T> {
    type V = QueueView<T>;

    closed spec fn view(&self) -> QueueView<T> {
        QueueView {
            items: self.ring@,
            capacity: self.ring.spec_capacity(),
            stage: if self.state == STATE_SPLIT {
                Stage::Split
            } else if self.state == STATE_CLOSED {
                Stage::Closed
            } else {
                Stage::Uninit
            },
        }
    }
}

impl<T> MpScQueue<T> {
    /// The ring is in order once the queue has been set up.
    pub closed spec fn wf(self) -> bool {
        &&& self.state == STATE_UNINIT || self.state == STATE_SPLIT || self.state == STATE_CLOSED
        &&& self.state == STATE_UNINIT ==> self.ring@.len() == 0
        &&& self.state != STATE_UNINIT ==> self.ring.wf()
    }

    /// A queue in order has valid contents.
    pub proof fn lemma_valid(self)
        requires
            self.wf(),
        ensures
            self@.valid(),
    {
        if self.state != STATE_UNINIT {
            self.ring.lemma_bounded();
        }
    }

    /// A queue in the given cells, which has not been set up.
    pub fn new_uninit(storage: Vec<Cell<T>>) -> (r: MpScQueue<T>)
        ensures
            r.wf(),
            r@ == (QueueView::<T> {
                items: Seq::empty(),
                capacity: storage@.len(),
                stage: Stage::Uninit,
            }),
    {
        MpScQueue { ring: Ring::uninit(storage), state: STATE_UNINIT }
    }

    /// Sets up the queue, unless that has been done.
    ///
    /// The number of cells must be a power of two, and two at least.
    pub fn init_split(&mut self) -> (r: Result<(Sender<T>, Receiver<T>), ()>)
        requires
            old(self).wf(),
            is_capacity(old(self)@.capacity),
        ensures
            final(self).wf(),
            r is Ok <==> old(self)@.stage is Uninit,
            final(self)@ == if r is Ok {
                QueueView { stage: Stage::Split, ..old(self)@ }
            } else {
                old(self)@
            },
    {
        if self.state != STATE_UNINIT {
            return Err(());
        }
        self.state = STATE_INITING;
        self.ring.init();
        self.state = STATE_SPLIT;
        assert(self@.items =~= old(self)@.items);
        Ok((Sender { marker: PhantomData }, Receiver { marker: PhantomData }))
    }

    /// Takes the item at the front of the queue, if there is one, even if the
    /// queue has been closed.
    pub fn dequeue_sync(&mut self) -> (r: Option<T>)
        requires
            old(self).wf(),
            !(old(self)@.stage is Uninit),
        ensures
            final(self).wf(),
            r == old(self)@.front(),
            final(self)@ == old(self)@.after_dequeue(),
    {
        self.ring.dequeue()
    }

    /// Takes the item at the front of the queue, or returns `None` if the
    /// receiver has to wait for one.
    pub fn poll_dequeue(&mut self) -> (r: Option<Result<T, DequeueError>>)
        requires
            old(self).wf(),
            !(old(self)@.stage is Uninit),
        ensures
            final(self).wf(),
            r == match old(self)@.front() {
                Some(item) => Some(Ok::<T, DequeueError>(item)),
                None => if old(self)@.stage is Closed {
                    Some(Err(DequeueError::Closed))
                } else {
                    None
                },
            },
            final(self)@ == old(self)@.after_dequeue(),
    {
        match self.dequeue_sync() {
            Some(item) => Some(Ok(item)),
            None => if self.state == STATE_CLOSED {
                Some(Err(DequeueError::Closed))
            } else {
                None
            },
        }
    }

    /// Puts an item at the end of the queue. If that is not possible, the item is
    /// handed back.
    pub fn enqueue_sync(&mut self, item: T) -> (r: Result<(), EnqueueError<T>>)
        requires
            old(self).wf(),
        ensures
            final(self).wf(),
            match r {
                Ok(_) => old(self)@.enqueue_error(item) is None,
                Err(e) => old(self)@.enqueue_error(item) == Some(e),
            },
            final(self)@ == old(self)@.after_enqueue(item),
    {
        if self.state == STATE_CLOSED {
            return Err(EnqueueError::Closed(item));
        }
        if self.state != STATE_SPLIT {
            return Err(EnqueueError::InternalError(item));
        }
        match self.ring.enqueue(item) {
            Ok(_) => Ok(()),
            Err(item) => Err(EnqueueError::Full(item)),
        }
    }

    /// Whether the queue is in use: set up, and not closed.
    pub fn is_open(&self) -> (r: bool)
        ensures
            r == self@.stage is Split,
    {
        self.state == STATE_SPLIT
    }

    /// Marks the queue as permanently closed. Items that are in it can still be
    /// taken, but no further ones can be put into it.
    pub fn close(&mut self)
        requires
            old(self).wf(),
            old(self)@.stage is Split,
        ensures
            final(self).wf(),
            final(self)@ == (QueueView { stage: Stage::Closed, ..old(self)@ }),
    {
        self.state = STATE_CLOSED;
    }
}

impl<T> Sender<T> {
    /// Puts an item at the end of the queue. If that is not possible, the item is
    /// handed back.
    pub fn enqueue_sync(&self, q: &mut MpScQueue<T>, item: T) -> (r: Result<(), EnqueueError<T>>)
        requires
            old(q).wf(),
        ensures
            final(q).wf(),
            match r {
                Ok(_) => old(q)@.enqueue_error(item) is None,
                Err(e) => old(q)@.enqueue_error(item) == Some(e),
            },
            final(q)@ == old(q)@.after_enqueue(item),
    {
        q.enqueue_sync(item)
    }
}

impl<T> Receiver<T> {
    /// Takes the item at the front of the queue, if there is one.
    pub fn dequeue_sync(&self, q: &mut MpScQueue<T>) -> (r: Option<T>)
        requires
            old(q).wf(),
            !(old(q)@.stage is Uninit),
        ensures
            final(q).wf(),
            r == old(q)@.front(),
            final(q)@ == old(q)@.after_dequeue(),
    {
        q.dequeue_sync()
    }

    /// Takes the item at the front of the queue, or returns `None` if the
    /// receiver has to wait for one.
    pub fn poll_dequeue(&self, q: &mut MpScQueue<T>) -> (r: Option<Result<T, DequeueError>>)
        requires
            old(q).wf(),
            !(old(q)@.stage is Uninit),
        ensures
            final(q).wf(),
            r == match old(q)@.front() {
                Some(item) => Some(Ok::<T, DequeueError>(item)),
                None => if old(q)@.stage is Closed {
                    Some(Err(DequeueError::Closed))
                } else {
                    None
                },
            },
            final(q)@ == old(q)@.after_dequeue(),
    {
        q.poll_dequeue()
    }
}

/// One vacant cell.
pub fn single_cell<T>() -> (r: Cell<T>)
    ensures
        r.seq() == 0,
        r.item() is None,
{
    QCell::new(0)
}

/// `N` vacant cells.
pub fn cell_array<const N: usize, T>() -> (r: Vec<Cell<T>>)
    ensures
        r@.len() == N,
        forall|i: int| 0 <= i < N ==> (#[trigger] r@[i]).seq() == 0 && r@[i].item() is None,
{
    let mut cells: Vec<Cell<T>> = Vec::new();
    let mut i: usize = 0;
    while i < N
        invariant
            i <= N,
            cells@.len() == i,
            forall|j: int| 0 <= j < i ==> (#[trigger] cells@[j]).seq() == 0
                && cells@[j].item() is None,
        decreases N - i,
    {
        cells.push(single_cell());
        i += 1;
    }
    cells
}

/// Items are taken in the order in which they were put: what is put at the end
/// of a queue does not change what is at its front, unless the queue was empty.
pub proof fn items_keep_their_order<T>(q: QueueView<T>, item: T)
    requires
        q.valid(),
        q.enqueue_error(item) is None,
    ensures
        q.items.len() == 0 ==> q.after_enqueue(item).front() == Some(item) && q.after_enqueue(
            item,
        ).after_dequeue() == q,
        q.items.len() > 0 ==> q.after_enqueue(item).front() == q.front() && q.after_enqueue(
            item,
        ).after_dequeue() == q.after_dequeue().after_enqueue(item),
{
    assert(q.after_enqueue(item).after_dequeue().items =~= if q.items.len() == 0 {
        q.items
    } else {
        q.after_dequeue().after_enqueue(item).items
    });
}

/// A queue that was closed hands out the items that are in it, and takes no
/// further ones.
pub proof fn closed_queues_drain<T>(q: QueueView<T>, item: T)
    requires
        q.valid(),
        q.stage is Split,
    ensures
        ({
            let closed = QueueView { stage: Stage::Closed, ..q };
            &&& closed.front() == q.front()
            &&& closed.after_dequeue().items == q.after_dequeue().items
            &&& closed.after_dequeue().stage is Closed
            &&& closed.enqueue_error(item) == Some(EnqueueError::Closed(item))
        }),
{
}

/// A queue in use takes an item exactly while it has fewer than it has room for; a queue
/// that is full, closed or not set up hands the item back, and says which it is. An item
/// that is taken in is put behind the others, and nothing else changes.
pub proof fn queues_take_items_while_there_is_room<T>(q: QueueView<T>, item: T)
    requires
        q.valid(),
    ensures
        q.enqueue_error(item) is None <==> q.stage is Split && q.items.len() < q.capacity,
        q.enqueue_error(item) == Some(EnqueueError::Full(item)) <==> q.stage is Split
            && q.items.len() >= q.capacity,
        q.enqueue_error(item) == Some(EnqueueError::Closed(item)) <==> q.stage is Closed,
        q.enqueue_error(item) == Some(EnqueueError::InternalError(item)) <==> q.stage is Uninit,
        q.enqueue_error(item) matches Some(e) ==> e.item() == item && q.after_enqueue(item) == q,
        q.enqueue_error(item) is None ==> q.after_enqueue(item).items == q.items + seq![item],
        q.after_enqueue(item).capacity == q.capacity && q.after_enqueue(item).stage == q.stage,
{
    assert(q.items.push(item) =~= q.items + seq![item]);
}

/// The item that is taken from a queue is the oldest, whether the queue is closed or not,
/// and the others stay.
pub proof fn the_oldest_item_is_taken<T>(q: QueueView<T>)
    ensures
        q.items.len() == 0 ==> q.front() is None && q.after_dequeue() == q,
        q.items.len() > 0 ==> q.front() == Some(q.items[0]) && seq![q.items[0]]
            + q.after_dequeue().items == q.items,
        q.after_dequeue().capacity == q.capacity && q.after_dequeue().stage == q.stage,
{
    if q.items.len() > 0 {
        assert(seq![q.items[0]] + q.after_dequeue().items =~= q.items);
    }
}

} // verus!
