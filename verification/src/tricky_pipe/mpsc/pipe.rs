//! A channel: the queue of indices, and the elements that they select.
use super::channel_core::{Core, Reservation};
use super::elements::Elements;
use super::error::{TryRecvError, TrySendError};
use core::marker::PhantomData;
use vstd::prelude::*;

verus! {

/// A channel of messages of type `T`, which may be closed with an error of type
/// `E`, and has its messages in storage of type `S`.
pub struct TrickyPipe<T, E, S = Vec<Option<T>>> {
    core: Core<E>,
    elements: S,
    marker: PhantomData<T>,
}

/// The contents of a channel.
pub struct PipeView<T, E> {
    /// The messages that were sent and not received yet, the oldest first.
    pub messages: Seq<T>,
    /// The elements that are reserved: by a permit, or by a message that was
    /// received and is still being read.
    pub reserved: Set<u8>,
    /// The number of elements.
    pub capacity: nat,
    /// Nothing can be sent any more.
    pub send_closed: bool,
    /// Nothing can be received any more once all messages were received.
    pub recv_closed: bool,
    /// The error that the channel was closed with.
    pub error: Option<E>,
    /// Whether the receiver has been claimed.
    pub rx_claimed: bool,
    /// The number of senders.
    pub tx_count: nat,
}

impl<T, E> PipeView<T, E> {
    /// A channel that nothing has happened to, without a sender.
    pub open spec fn fresh(capacity: nat) -> PipeView<T, E> {
        PipeView {
            messages: Seq::empty(),
            reserved: Set::empty(),
            capacity,
            send_closed: false,
            recv_closed: false,
            error: None,
            rx_claimed: false,
            tx_count: 0,
        }
    }

    /// There are never more messages and reservations than elements. A channel
    /// that was closed with an error is closed at both ends.
    pub open spec fn valid(self) -> bool {
        &&& self.reserved.finite()
        &&& self.messages.len() + self.reserved.len() <= self.capacity
        &&& self.error is Some ==> self.send_closed && self.recv_closed
    }

    /// Whether nothing can be reserved for want of room.
    pub open spec fn full(self) -> bool {
        self.messages.len() + self.reserved.len() == self.capacity
    }

    /// The channel with one more message.
    pub open spec fn push(self, message: T) -> PipeView<T, E> {
        PipeView { messages: self.messages.push(message), ..self }
    }

    /// The channel without its oldest message.
    pub open spec fn pop(self) -> PipeView<T, E> {
        PipeView { messages: self.messages.drop_first(), ..self }
    }

    /// The channel with one more element reserved.
    pub open spec fn reserve(self, idx: u8) -> PipeView<T, E> {
        PipeView { reserved: self.reserved.insert(idx), ..self }
    }

    /// The channel with one less element reserved.
    pub open spec fn release(self, idx: u8) -> PipeView<T, E> {
        PipeView { reserved: self.reserved.remove(idx), ..self }
    }

    /// The channel after it was closed with an error: the first error stays.
    pub open spec fn close_with_error(self, error: E) -> PipeView<T, E> {
        if self.error is Some {
            self
        } else {
            PipeView { error: Some(error), send_closed: true, recv_closed: true, ..self }
        }
    }

    /// The channel with one more sender.
    pub open spec fn add_tx(self) -> PipeView<T, E> {
        PipeView { tx_count: self.tx_count + 1, ..self }
    }

    /// The channel with one less sender: when the last is gone, the channel is
    /// closed to the receiver.
    pub open spec fn drop_tx(self) -> PipeView<T, E> {
        PipeView {
            tx_count: (self.tx_count - 1) as nat,
            recv_closed: self.recv_closed || self.tx_count == 1,
            ..self
        }
    }

    /// The channel after its receiver is gone.
    pub open spec fn close_rx(self) -> PipeView<T, E> {
        PipeView { send_closed: true, ..self }
    }

    /// Whether `error` is what a sender is to be told instead of being given an
    /// element: that the channel is closed with an error comes first, then that
    /// it is closed, then that it is full.
    pub open spec fn refuses<M>(self, error: TrySendError<E, M>) -> bool
        where E: Clone
    {
        match error {
            TrySendError::Full(_) => !self.send_closed && self.full(),
            TrySendError::Disconnected(_) => self.send_closed && self.error is None,
            TrySendError::Error { message, error } => self.error matches Some(e) && cloned(
                e,
                error,
            ),
        }
    }

    /// Whether `error` is what the receiver is to be told instead of being given
    /// a message: messages come first, then that the channel is closed with an
    /// error, then that it is closed.
    pub open spec fn starves(self, error: TryRecvError<E>) -> bool
        where E: Clone
    {
        &&& self.messages.len() == 0
        &&& match error {
            TryRecvError::Empty => !self.recv_closed,
            TryRecvError::Disconnected => self.recv_closed && self.error is None,
            TryRecvError::Error(error) => self.error matches Some(e) && cloned(e, error),
        }
    }
}

/// The messages that the queued indices select.
spec fn selected<T>(queued: Seq<u8>, elements: Seq<Option<T>>) -> Seq<T> {
    Seq::new(queued.len(), |i: int| elements[queued[i] as int]->0)
}

impl<T, E, S: Elements<T>> View for TrickyPipe<T, E, S> {
    type V = PipeView<T, E>;

    closed spec fn view(&self) -> PipeView<T, E> {
        PipeView {
            messages: selected(self.core@.queued, self.elements.contents()),
            reserved: self.core@.reserved_set(),
            capacity: self.core@.capacity,
            send_closed: self.core@.send_closed,
            recv_closed: self.core@.recv_closed,
            error: self.core@.error,
            rx_claimed: self.core@.rx_claimed,
            tx_count: self.core@.tx_count,
        }
    }
}

impl<T, E, S: Elements<T>> TrickyPipe<T, E, S> {
    /// Every queued index selects an element that holds a message.
    pub closed spec fn wf(self) -> bool {
        &&& self.core.wf()
        &&& self.elements.contents().len() == self.core@.capacity
        &&& forall|i: int|
            0 <= i < self.core@.queued.len() ==> self.elements.contents()[(
            #[trigger] self.core@.queued[i]) as int] is Some
    }

    /// A channel in order has valid contents.
    pub proof fn lemma_valid(self)
        requires
            self.wf(),
        ensures
            self@.valid(),
    {
        self.core.lemma_valid();
        self.core@.lemma_count();
    }

    /// A channel with room for as many messages as there are elements, without a
    /// sender.
    pub(crate) fn with_elements(capacity: u8, elements: S) -> (r: TrickyPipe<T, E, S>)
        requires
            capacity <= super::channel_core::MAX_CAPACITY,
            elements.contents().len() == capacity,
        ensures
            r.wf(),
            r@ == PipeView::<T, E>::fresh(capacity as nat),
    {
        let r = TrickyPipe {
            core: Core::without_sender(capacity),
            elements,
            marker: PhantomData,
        };
        assert(r@.messages =~= Seq::empty());
        assert(r@.reserved =~= Set::empty());
        r
    }

    /// Reserves an element.
    pub(crate) fn reserve_element(&mut self) -> (r: Result<Reservation, TrySendError<E>>) where
        E: Clone,

        requires
            old(self).wf(),
        ensures
            final(self).wf(),
            match r {
                Ok(res) => {
                    &&& !old(self)@.send_closed
                    &&& !old(self)@.full()
                    &&& !old(self)@.reserved.contains(res.idx)
                    &&& final(self)@ == old(self)@.reserve(res.idx)
                },
                Err(error) => old(self)@.refuses(error) && final(self)@ == old(self)@,
            },
    {
        proof {
            self.core.lemma_valid();
            self.core@.lemma_count();
        }
        let r = self.core.try_reserve();
        proof {
            if r is Ok {
                let res = r->Ok_0;
                assert(!old(self).core@.queued.contains(res.idx)) by {
                    if old(self).core@.queued.contains(res.idx) {
                        let k = old(self).core@.queued.index_of(res.idx);
                        assert(old(self).core@.in_use.contains(old(self).core@.queued[k]));
                    }
                }
                assert(self@.reserved =~= old(self)@.reserved.insert(res.idx));
                assert(self@.messages =~= old(self)@.messages);
            }
        }
        r
    }

    /// Puts a message into a reserved element, and sends it.
    pub(crate) fn commit_element(&mut self, res: Reservation, message: T)
        requires
            old(self).wf(),
            old(self)@.reserved.contains(res.idx),
        ensures
            final(self).wf(),
            final(self)@ == old(self)@.release(res.idx).push(message),
    {
        let ghost idx = res.idx;
        proof {
            self.core.lemma_valid();
            self.core@.lemma_count();
        }
        let mut slot = Some(message);
        self.elements.exchange(res.idx as usize, &mut slot);
        self.core.commit_send(res);
        proof {
            let queued = old(self).core@.queued;
            assert forall|i: int| 0 <= i < queued.len() implies #[trigger] queued[i] != idx by {
                assert(queued.contains(queued[i]));
            }
            assert(self@.messages =~= old(self)@.messages.push(message));
            assert(self@.reserved =~= old(self)@.reserved.remove(idx)) by {
                assert forall|i: u8|
                    self@.reserved.contains(i) == old(self)@.reserved.remove(idx).contains(i) by {
                    if queued.push(idx).contains(i) {
                        let k = queued.push(idx).index_of(i);
                        if k < queued.len() {
                            assert(queued[k] == i);
                        }
                    }
                    if queued.contains(i) {
                        let k = queued.index_of(i);
                        assert(queued.push(idx)[k] == i);
                    }
                    assert(queued.push(idx)[queued.len() as int] == idx);
                }
            }
        }
    }

    /// Gives back a reserved element.
    pub(crate) fn release_element(&mut self, res: Reservation)
        requires
            old(self).wf(),
            old(self)@.reserved.contains(res.idx),
        ensures
            final(self).wf(),
            final(self)@ == old(self)@.release(res.idx),
    {
        let ghost idx = res.idx;
        proof {
            self.core.lemma_valid();
            self.core@.lemma_count();
        }
        self.core.uncommit(res);
        proof {
            assert(self@.reserved =~= old(self)@.reserved.remove(idx));
            assert(self@.messages =~= old(self)@.messages);
        }
    }

    /// Takes the oldest message out of its element, which stays reserved.
    pub(crate) fn take_element(&mut self) -> (r: Result<(Reservation, T), TryRecvError<E>>) where
        E: Clone,

        requires
            old(self).wf(),
        ensures
            final(self).wf(),
            match r {
                Ok((res, message)) => {
                    &&& old(self)@.messages.len() > 0
                    &&& message == old(self)@.messages[0]
                    &&& !old(self)@.reserved.contains(res.idx)
                    &&& final(self)@ == old(self)@.pop().reserve(res.idx)
                },
                Err(error) => old(self)@.starves(error) && final(self)@ == old(self)@,
            },
    {
        proof {
            self.core.lemma_valid();
            self.core@.lemma_count();
        }
        match self.core.try_dequeue() {
            Ok(res) => {
                let ghost idx = res.idx;
                let ghost queued = old(self).core@.queued;
                proof {
                    assert(queued.contains(queued[0]));
                    assert(old(self).core@.in_use.contains(queued[0]));
                }
                let mut slot: Option<T> = None;
                self.elements.exchange(res.idx as usize, &mut slot);
                proof {
                    assert forall|i: int|
                        0 <= i < queued.drop_first().len() implies self.elements.contents()[(
                    #[trigger] queued.drop_first()[i]) as int] == old(self).elements.contents()[queued[i
                        + 1] as int] by {
                        assert(queued.drop_first()[i] == queued[i + 1]);
                    }
                    assert(self@.messages =~= old(self)@.messages.drop_first());
                    assert(self@.reserved =~= old(self)@.reserved.insert(idx)) by {
                        assert forall|i: u8|
                            self@.reserved.contains(i) == old(self)@.reserved.insert(
                                idx,
                            ).contains(i) by {
                            if queued.contains(i) && i != idx {
                                let k = queued.index_of(i);
                                assert(queued.drop_first()[k - 1] == i);
                            }
                            if queued.drop_first().contains(i) {
                                let k = queued.drop_first().index_of(i);
                                assert(queued[k + 1] == i);
                            }
                        }
                    }
                }
                match slot {
                    Some(message) => Ok((res, message)),
                    None => {
                        assert(false);
                        Err(TryRecvError::Empty)
                    },
                }
            },
            Err(error) => Err(error),
        }
    }

    /// Claims the receiver, and returns whether it had not been claimed before.
    pub(crate) fn claim_rx(&mut self) -> (r: bool)
        requires
            old(self).wf(),
        ensures
            final(self).wf(),
            r == !old(self)@.rx_claimed,
            final(self)@ == (PipeView { rx_claimed: true, ..old(self)@ }),
    {
        self.core.try_claim_rx()
    }

    /// Closes the channel from the receiver.
    pub(crate) fn close_rx(&mut self)
        requires
            old(self).wf(),
        ensures
            final(self).wf(),
            final(self)@ == old(self)@.close_rx(),
    {
        self.core.close_rx();
    }

    /// Closes the channel with an error. If it was already closed with an error,
    /// nothing is done, and `false` is returned.
    pub(crate) fn close_with_error(&mut self, error: E) -> (r: bool)
        requires
            old(self).wf(),
        ensures
            final(self).wf(),
            r == old(self)@.error is None,
            final(self)@ == old(self)@.close_with_error(error),
    {
        self.core.close_with_error(error)
    }

    /// Adds a sender.
    pub(crate) fn add_tx(&mut self)
        requires
            old(self).wf(),
            old(self)@.tx_count < usize::MAX / 2,
        ensures
            final(self).wf(),
            final(self)@ == old(self)@.add_tx(),
    {
        self.core.add_tx();
    }

    /// Drops a sender, and returns whether it was the last.
    pub(crate) fn drop_tx(&mut self) -> (r: bool)
        requires
            old(self).wf(),
            old(self)@.tx_count > 0,
        ensures
            final(self).wf(),
            r == (old(self)@.tx_count == 1),
            final(self)@ == old(self)@.drop_tx(),
    {
        self.core.drop_tx()
    }

    /// Whether there is no message in the channel.
    #[must_use]
    pub fn is_empty(&self) -> (r: bool)
        requires
            self.wf(),
        ensures
            r == (self@.messages.len() == 0),
    {
        self.core.is_empty()
    }

    /// Whether the channel holds as many messages as it can.
    #[must_use]
    pub fn is_full(&self) -> (r: bool)
        requires
            self.wf(),
        ensures
            r == (self@.messages.len() == self@.capacity),
    {
        self.core.is_full()
    }

    /// The number of messages in the channel.
    #[must_use]
    pub fn len(&self) -> (r: usize)
        requires
            self.wf(),
        ensures
            r == self@.messages.len(),
    {
        self.core.len()
    }

    /// The number of messages that the channel can hold.
    #[must_use]
    pub fn capacity(&self) -> (r: usize)
        ensures
            r == self@.capacity,
    {
        self.core.capacity()
    }

    /// The capacity less the number of messages in the channel.
    #[must_use]
    pub fn remaining(&self) -> (r: usize)
        requires
            self.wf(),
        ensures
            r == self@.capacity - self@.messages.len(),
    {
        self.core.remaining()
    }
}

impl<T, E> TrickyPipe<T, E> {
    /// A channel with room for `capacity` messages. It counts as a sender itself,
    /// since senders can be made from it.
    pub fn new(capacity: u8) -> (r: TrickyPipe<T, E>)
        requires
            capacity <= super::channel_core::MAX_CAPACITY,
        ensures
            r.wf(),
            r@ == PipeView::<T, E>::fresh(capacity as nat).add_tx(),
    {
        let mut r = TrickyPipe::without_sender(capacity);
        r.add_tx();
        r
    }

    /// A channel with room for `capacity` messages, without a sender.
    pub fn without_sender(capacity: u8) -> (r: TrickyPipe<T, E>)
        requires
            capacity <= super::channel_core::MAX_CAPACITY,
        ensures
            r.wf(),
            r@ == PipeView::<T, E>::fresh(capacity as nat),
    {
        let mut elements: Vec<Option<T>> = Vec::new();
        let mut i: u8 = 0;
        while i < capacity
            invariant
                i <= capacity,
                elements@.len() == i,
            decreases capacity - i,
        {
            elements.push(None);
            i += 1;
        }
        TrickyPipe::with_elements(capacity, elements)
    }
}

} // verus!
