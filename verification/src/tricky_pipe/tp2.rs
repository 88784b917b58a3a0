//! A bounded queue that is ready to use.
use super::ring::{is_capacity, Ring};
use super::typeinfo::{id_of, TypeInfo};
use core::marker::PhantomData;
use vstd::prelude::*;

pub use super::ring::QCell;
pub use super::spitebuf::{
    cell_array, single_cell, DequeueError, EnqueueError, QueueView, Stage, STATE_CLOSED,
    STATE_SPLIT,
};

verus! {

/// A bounded queue.
pub struct TrickyPipe<T> {
    ring: Ring<T>,
    state: u8,
}

/// Puts items into a queue.
pub struct Sender<T> {
    marker: PhantomData<T>,
}

/// Takes items from a queue.
pub struct Receiver<T> {
    marker: PhantomData<T>,
}

/// A sender for a queue whose items are of a type that is not known.
pub struct RefSender {
    info: TypeInfo,
}

impl<T> View for TrickyPipe<T> {
    type V = QueueView<T>;

    closed spec fn view(&self) -> QueueView<T> {
        QueueView {
            items: self.ring@,
            capacity: self.ring.spec_capacity(),
            stage: if self.state == STATE_SPLIT {
                Stage::Split
            } else if self.state == STATE_CLOSED {
                Stage::Closed
            } else {
                Stage::Uninit
            },
        }
    }
}

impl<T> TrickyPipe<T> {
    /// The ring is in order.
    pub closed spec fn wf(self) -> bool {
        &&& self.state == STATE_SPLIT || self.state == STATE_CLOSED
        &&& self.ring.wf()
    }

    /// A queue in order has valid contents.
    pub proof fn lemma_valid(self)
        requires
            self.wf(),
        ensures
            self@.valid(),
            !(self@.stage is Uninit),
    {
        self.ring.lemma_bounded();
    }

    /// A queue with room for `n` items, which must be a power of two, and two at
    /// least.
    fn new(n: usize) -> (r: TrickyPipe<T>)
        requires
            is_capacity(n as nat),
        ensures
            r.wf(),
            r@ == (QueueView::<T> {
                items: Seq::empty(),
                capacity: n as nat,
                stage: Stage::Split,
            }),
    {
        let mut cells: Vec<QCell<T>> = Vec::new();
        let mut i: usize = 0;
        while i < n
            invariant
                i <= n,
                cells@.len() == i,
            decreases n - i,
        {
            cells.push(QCell::new(i));
            i += 1;
        }
        let mut ring = Ring::uninit(cells);
        ring.init();
        let r = TrickyPipe { ring, state: STATE_SPLIT };
        assert(r@.items =~= Seq::empty());
        r
    }

    /// Takes the item at the front of the queue, if there is one, even if the
    /// queue has been closed.
    pub fn dequeue_sync(&mut self) -> (r: Option<T>)
        requires
            old(self).wf(),
        ensures
            final(self).wf(),
            r == old(self)@.front(),
            final(self)@ == old(self)@.after_dequeue(),
    {
        self.ring.dequeue()
    }

    /// Takes the item at the front of the queue, or returns `None` if the
    /// receiver has to wait for one.
    pub fn poll_dequeue(&mut self) -> (r: Option<Result<T, DequeueError>>)
        requires
            old(self).wf(),
        ensures
            final(self).wf(),
            r == match old(self)@.front() {
                Some(item) => Some(Ok::<T, DequeueError>(item)),
                None => if old(self)@.stage is Closed {
                    Some(Err(DequeueError::Closed))
                } else {
                    None
                },
            },
            final(self)@ == old(self)@.after_dequeue(),
    {
        match self.dequeue_sync() {
            Some(item) => Some(Ok(item)),
            None => if self.state == STATE_CLOSED {
                Some(Err(DequeueError::Closed))
            } else {
                None
            },
        }
    }

    /// Puts an item at the end of the queue. If that is not possible, the item is
    /// handed back.
    pub fn enqueue_sync(&mut self, item: T) -> (r: Result<(), EnqueueError<T>>)
        requires
            old(self).wf(),
        ensures
            final(self).wf(),
            match r {
                Ok(_) => old(self)@.enqueue_error(item) is None,
                Err(e) => old(self)@.enqueue_error(item) == Some(e),
            },
            final(self)@ == old(self)@.after_enqueue(item),
    {
        if self.state == STATE_CLOSED {
            return Err(EnqueueError::Closed(item));
        }
        if self.state != STATE_SPLIT {
            return Err(EnqueueError::InternalError(item));
        }
        match self.ring.enqueue(item) {
            Ok(_) => Ok(()),
            Err(item) => Err(EnqueueError::Full(item)),
        }
    }
}

impl RefSender {
    /// What is known of the type of the items.
    pub closed spec fn info(self) -> TypeInfo {
        self.info
    }

    /// Hides the type of the items, which is described as `name`.
    pub fn erase<T: 'static>(s: Sender<T>, name: &'static str) -> (r: RefSender)
        ensures
            r.info().spec_id() == id_of::<T>(),
            r.info().spec_name() == name@,
    {
        RefSender { info: TypeInfo::of::<T>(name) }
    }
}

impl<T> Sender<T> {
    /// Puts an item at the end of the queue. If that is not possible, the item is
    /// handed back.
    pub fn enqueue_sync(&self, pt: &mut TrickyPipe<T>, item: T) -> (r: Result<(), EnqueueError<T>>)
        requires
            old(pt).wf(),
        ensures
            final(pt).wf(),
            match r {
                Ok(_) => old(pt)@.enqueue_error(item) is None,
                Err(e) => old(pt)@.enqueue_error(item) == Some(e),
            },
            final(pt)@ == old(pt)@.after_enqueue(item),
    {
        pt.enqueue_sync(item)
    }
}

impl<T> Receiver<T> {
    /// Takes the item at the front of the queue, if there is one.
    pub fn dequeue_sync(&self, pt: &mut TrickyPipe<T>) -> (r: Option<T>)
        requires
            old(pt).wf(),
        ensures
            final(pt).wf(),
            r == old(pt)@.front(),
            final(pt)@ == old(pt)@.after_dequeue(),
    {
        pt.dequeue_sync()
    }
}

/// A queue with room for `n` items, and its two ends.
pub fn arc_channel<T>(n: usize) -> (r: (Sender<T>, Receiver<T>, TrickyPipe<T>))
    requires
        is_capacity(n as nat),
    ensures
        r.2.wf(),
        r.2@ == (QueueView::<T> { items: Seq::empty(), capacity: n as nat, stage: Stage::Split }),
{
    let pt = TrickyPipe::new(n);
    (Sender { marker: PhantomData }, Receiver { marker: PhantomData }, pt)
}

/// A queue with room for `n` items, and its two ends, of which the sender does
/// not know the type of the items.
pub fn arc_reftx_channel<T: 'static>(n: usize, name: &'static str) -> (r: (
    RefSender,
    Receiver<T>,
    TrickyPipe<T>,
))
    requires
        is_capacity(n as nat),
    ensures
        r.0.info().spec_id() == id_of::<T>(),
        r.0.info().spec_name() == name@,
        r.2.wf(),
        r.2@ == (QueueView::<T> { items: Seq::empty(), capacity: n as nat, stage: Stage::Split }),
{
    let (tx, rx, pt) = arc_channel(n);
    (RefSender::erase(tx, name), rx, pt)
}

} // verus!
