//! Handles that send and receive messages as typed values.
//!
//! A handle is the right to use one end of a channel. The channel itself is
//! passed to each call.
use super::channel_core::Reservation;
use super::error::{RecvError, SendError, TryRecvError, TrySendError};
use super::elements::Elements;
use super::pipe::{PipeView, TrickyPipe};
use super::erased::ErasedSender;
use super::serialized::{DeserSender, SerReceiver};
use crate::tricky_pipe::typeinfo::{id_of, TypeInfo};
use core::marker::PhantomData;
use vstd::prelude::*;

verus! {

/// Receives messages of type `T`.
pub struct Receiver<T, E> {
    pub(crate) marker: PhantomData<(T, E)>,
}

/// Sends messages of type `T`.
pub struct Sender<T, E> {
    pub(crate) marker: PhantomData<(T, E)>,
}

/// A permit to send a single message of type `T`.
#[must_use]
pub struct Permit<T, E> {
    pub(crate) res: Reservation,
    pub(crate) marker: PhantomData<(T, E)>,
}

impl<T, E, S: Elements<T>> TrickyPipe<T, E, S> {
    /// The receiver of the channel, the first time it is asked for.
    pub fn receiver(&mut self) -> (r: Option<Receiver<T, E>>)
        requires
            old(self).wf(),
        ensures
            final(self).wf(),
            r is Some <==> !old(self)@.rx_claimed,
            final(self)@ == (PipeView { rx_claimed: true, ..old(self)@ }),
    {
        if self.claim_rx() {
            Some(Receiver { marker: PhantomData })
        } else {
            None
        }
    }

    /// One more sender.
    pub fn sender(&mut self) -> (r: Sender<T, E>)
        requires
            old(self).wf(),
            old(self)@.tx_count < usize::MAX / 2,
        ensures
            final(self).wf(),
            final(self)@ == old(self)@.add_tx(),
    {
        self.add_tx();
        Sender { marker: PhantomData }
    }

    /// Adds a handle from which senders can be made.
    pub fn add_handle(&mut self)
        requires
            old(self).wf(),
            old(self)@.tx_count < usize::MAX / 2,
        ensures
            final(self).wf(),
            final(self)@ == old(self)@.add_tx(),
    {
        self.add_tx();
    }

    /// Drops a handle from which senders can be made, and returns whether there
    /// is no sender any more.
    pub fn drop_handle(&mut self) -> (r: bool)
        requires
            old(self).wf(),
            old(self)@.tx_count > 0,
        ensures
            final(self).wf(),
            r == (old(self)@.tx_count == 1),
            final(self)@ == old(self)@.drop_tx(),
    {
        self.drop_tx()
    }
}

impl<T, E> Receiver<T, E> {
    /// Receives the next message, without waiting for one to be sent.
    pub fn try_recv<S: Elements<T>>(&self, pipe: &mut TrickyPipe<T, E, S>) -> (r: Result<T, TryRecvError<E>>) where
        E: Clone,

        requires
            old(pipe).wf(),
        ensures
            final(pipe).wf(),
            match r {
                Ok(message) => {
                    &&& old(pipe)@.messages.len() > 0
                    &&& message == old(pipe)@.messages[0]
                    &&& final(pipe)@ == old(pipe)@.pop()
                },
                Err(error) => old(pipe)@.starves(error) && final(pipe)@ == old(pipe)@,
            },
    {
        match pipe.take_element() {
            Ok((res, message)) => {
                let ghost idx = res.idx;
                pipe.release_element(res);
                assert(old(pipe)@.reserved.insert(idx).remove(idx) =~= old(pipe)@.reserved);
                Ok(message)
            },
            Err(error) => Err(error),
        }
    }

    /// Receives the next message, or returns `None` if the receiver has to wait
    /// for one to be sent.
    pub fn poll_recv<S: Elements<T>>(&self, pipe: &mut TrickyPipe<T, E, S>) -> (r: Option<Result<T, RecvError<E>>>) where
        E: Clone,

        requires
            old(pipe).wf(),
        ensures
            final(pipe).wf(),
            match r {
                Some(Ok(message)) => {
                    &&& old(pipe)@.messages.len() > 0
                    &&& message == old(pipe)@.messages[0]
                    &&& final(pipe)@ == old(pipe)@.pop()
                },
                Some(Err(RecvError::Disconnected)) => {
                    &&& old(pipe)@.starves(TryRecvError::Disconnected)
                    &&& final(pipe)@ == old(pipe)@
                },
                Some(Err(RecvError::Error(error))) => {
                    &&& old(pipe)@.starves(TryRecvError::Error(error))
                    &&& final(pipe)@ == old(pipe)@
                },
                None => old(pipe)@.starves(TryRecvError::Empty) && final(pipe)@ == old(pipe)@,
            },
    {
        match self.try_recv(pipe) {
            Ok(message) => Some(Ok(message)),
            Err(TryRecvError::Disconnected) => Some(Err(RecvError::Disconnected)),
            Err(TryRecvError::Error(error)) => Some(Err(RecvError::Error(error))),
            Err(TryRecvError::Empty) => None,
        }
    }

    /// The same end of the channel, for serialized messages, whose type is described
    /// as `name`.
    pub fn into_serde(self, name: &'static str) -> (r: SerReceiver<E>) where T: 'static
        ensures
            r.info().spec_id() == id_of::<T>(),
            r.info().spec_name() == name@,
    {
        SerReceiver::new(TypeInfo::of::<T>(name))
    }

    /// Drops the receiver: from then on, nothing can be sent.
    pub fn drop<S: Elements<T>>(self, pipe: &mut TrickyPipe<T, E, S>)
        requires
            old(pipe).wf(),
        ensures
            final(pipe).wf(),
            final(pipe)@ == old(pipe)@.close_rx(),
    {
        pipe.close_rx();
    }

    /// Closes the channel with an error. If it was already closed with an error,
    /// nothing is done, and `false` is returned.
    pub fn close_with_error<S: Elements<T>>(&self, pipe: &mut TrickyPipe<T, E, S>, error: E) -> (r: bool)
        requires
            old(pipe).wf(),
        ensures
            final(pipe).wf(),
            r == old(pipe)@.error is None,
            final(pipe)@ == old(pipe)@.close_with_error(error),
    {
        pipe.close_with_error(error)
    }

    /// Whether there is no message in the channel.
    #[must_use]
    pub fn is_empty<S: Elements<T>>(&self, pipe: &TrickyPipe<T, E, S>) -> (r: bool)
        requires
            pipe.wf(),
        ensures
            r == (pipe@.messages.len() == 0),
    {
        pipe.is_empty()
    }

    /// Whether the channel holds as many messages as it can.
    #[must_use]
    pub fn is_full<S: Elements<T>>(&self, pipe: &TrickyPipe<T, E, S>) -> (r: bool)
        requires
            pipe.wf(),
        ensures
            r == (pipe@.messages.len() == pipe@.capacity),
    {
        pipe.is_full()
    }

    /// The number of messages in the channel.
    #[must_use]
    pub fn len<S: Elements<T>>(&self, pipe: &TrickyPipe<T, E, S>) -> (r: usize)
        requires
            pipe.wf(),
        ensures
            r == pipe@.messages.len(),
    {
        pipe.len()
    }

    /// The number of messages that the channel can hold.
    #[must_use]
    pub fn capacity<S: Elements<T>>(&self, pipe: &TrickyPipe<T, E, S>) -> (r: usize)
        ensures
            r == pipe@.capacity,
    {
        pipe.capacity()
    }

    /// The capacity less the number of messages in the channel.
    #[must_use]
    pub fn remaining<S: Elements<T>>(&self, pipe: &TrickyPipe<T, E, S>) -> (r: usize)
        requires
            pipe.wf(),
        ensures
            r == pipe@.capacity - pipe@.messages.len(),
    {
        pipe.remaining()
    }

}

impl<T, E> Sender<T, E> {
    /// Reserves room for a message, without waiting for it.
    pub fn try_reserve<S: Elements<T>>(&self, pipe: &mut TrickyPipe<T, E, S>) -> (r: Result<
        Permit<T, E>,
        TrySendError<E>,
    >) where E: Clone,
        requires
            old(pipe).wf(),
        ensures
            final(pipe).wf(),
            match r {
                Ok(permit) => {
                    &&& !old(pipe)@.send_closed
                    &&& !old(pipe)@.full()
                    &&& !old(pipe)@.reserved.contains(permit.index())
                    &&& final(pipe)@ == old(pipe)@.reserve(permit.index())
                },
                Err(error) => old(pipe)@.refuses(error) && final(pipe)@ == old(pipe)@,
            },
    {
        match pipe.reserve_element() {
            Ok(res) => Ok(Permit { res, marker: PhantomData }),
            Err(error) => Err(error),
        }
    }

    /// Reserves room for a message, or returns `None` if the sender has to wait
    /// for it.
    pub fn poll_reserve<S: Elements<T>>(&self, pipe: &mut TrickyPipe<T, E, S>) -> (r: Option<
        Result<Permit<T, E>, SendError<E>>,
    >) where E: Clone,
        requires
            old(pipe).wf(),
        ensures
            final(pipe).wf(),
            match r {
                Some(Ok(permit)) => {
                    &&& !old(pipe)@.send_closed
                    &&& !old(pipe)@.full()
                    &&& !old(pipe)@.reserved.contains(permit.index())
                    &&& final(pipe)@ == old(pipe)@.reserve(permit.index())
                },
                Some(Err(SendError::Disconnected(_))) => {
                    &&& old(pipe)@.refuses(TrySendError::Disconnected(()))
                    &&& final(pipe)@ == old(pipe)@
                },
                Some(Err(SendError::Error { message, error })) => {
                    &&& old(pipe)@.refuses(TrySendError::Error { message, error })
                    &&& final(pipe)@ == old(pipe)@
                },
                None => old(pipe)@.refuses(TrySendError::Full(())) && final(pipe)@ == old(pipe)@,
            },
    {
        match self.try_reserve(pipe) {
            Ok(permit) => Some(Ok(permit)),
            Err(error) => match error.into_send_error() {
                Ok(error) => Some(Err(error)),
                Err(_) => None,
            },
        }
    }

    /// Sends a message, without waiting for room. If it cannot be sent, it is
    /// handed back in the error.
    pub fn try_send<S: Elements<T>>(&self, pipe: &mut TrickyPipe<T, E, S>, message: T) -> (r: Result<
        (),
        TrySendError<E, T>,
    >) where E: Clone,
        requires
            old(pipe).wf(),
        ensures
            final(pipe).wf(),
            match r {
                Ok(_) => {
                    &&& !old(pipe)@.send_closed
                    &&& !old(pipe)@.full()
                    &&& final(pipe)@ == old(pipe)@.push(message)
                },
                Err(error) => {
                    &&& old(pipe)@.refuses(error)
                    &&& error.message() == message
                    &&& final(pipe)@ == old(pipe)@
                },
            },
    {
        match self.try_reserve(pipe) {
            Ok(permit) => {
                let ghost idx = permit.index();
                permit.send(pipe, message);
                assert(old(pipe)@.reserved.insert(idx).remove(idx) =~= old(pipe)@.reserved);
                Ok(())
            },
            Err(error) => Err(error.with_message(message)),
        }
    }

    /// The same end of the channel, for serialized messages, whose type is described
    /// as `name`.
    pub fn into_serde(self, name: &'static str) -> (r: DeserSender<E>) where T: 'static
        ensures
            r.info().spec_id() == id_of::<T>(),
            r.info().spec_name() == name@,
    {
        DeserSender::new(TypeInfo::of::<T>(name))
    }

    /// The same end of the channel, with the type of its messages hidden, which is
    /// described as `name`.
    pub fn into_erased(self, name: &'static str) -> (r: ErasedSender<E>) where T: 'static
        ensures
            r.info().spec_id() == id_of::<T>(),
            r.info().spec_name() == name@,
    {
        ErasedSender::new(TypeInfo::of::<T>(name))
    }

    /// One more sender for the same channel.
    pub fn clone<S: Elements<T>>(&self, pipe: &mut TrickyPipe<T, E, S>) -> (r: Sender<T, E>)
        requires
            old(pipe).wf(),
            old(pipe)@.tx_count < usize::MAX / 2,
        ensures
            final(pipe).wf(),
            final(pipe)@ == old(pipe)@.add_tx(),
    {
        pipe.add_tx();
        Sender { marker: PhantomData }
    }

    /// Drops the sender, and returns whether it was the last.
    pub fn drop<S: Elements<T>>(self, pipe: &mut TrickyPipe<T, E, S>) -> (r: bool)
        requires
            old(pipe).wf(),
            old(pipe)@.tx_count > 0,
        ensures
            final(pipe).wf(),
            r == (old(pipe)@.tx_count == 1),
            final(pipe)@ == old(pipe)@.drop_tx(),
    {
        pipe.drop_tx()
    }

    /// Closes the channel with an error. If it was already closed with an error,
    /// nothing is done, and `false` is returned.
    pub fn close_with_error<S: Elements<T>>(&self, pipe: &mut TrickyPipe<T, E, S>, error: E) -> (r: bool)
        requires
            old(pipe).wf(),
        ensures
            final(pipe).wf(),
            r == old(pipe)@.error is None,
            final(pipe)@ == old(pipe)@.close_with_error(error),
    {
        pipe.close_with_error(error)
    }

    /// Whether there is no message in the channel.
    #[must_use]
    pub fn is_empty<S: Elements<T>>(&self, pipe: &TrickyPipe<T, E, S>) -> (r: bool)
        requires
            pipe.wf(),
        ensures
            r == (pipe@.messages.len() == 0),
    {
        pipe.is_empty()
    }

    /// Whether the channel holds as many messages as it can.
    #[must_use]
    pub fn is_full<S: Elements<T>>(&self, pipe: &TrickyPipe<T, E, S>) -> (r: bool)
        requires
            pipe.wf(),
        ensures
            r == (pipe@.messages.len() == pipe@.capacity),
    {
        pipe.is_full()
    }

    /// The number of messages in the channel.
    #[must_use]
    pub fn len<S: Elements<T>>(&self, pipe: &TrickyPipe<T, E, S>) -> (r: usize)
        requires
            pipe.wf(),
        ensures
            r == pipe@.messages.len(),
    {
        pipe.len()
    }

    /// The number of messages that the channel can hold.
    #[must_use]
    pub fn capacity<S: Elements<T>>(&self, pipe: &TrickyPipe<T, E, S>) -> (r: usize)
        ensures
            r == pipe@.capacity,
    {
        pipe.capacity()
    }

    /// The capacity less the number of messages in the channel.
    #[must_use]
    pub fn remaining<S: Elements<T>>(&self, pipe: &TrickyPipe<T, E, S>) -> (r: usize)
        requires
            pipe.wf(),
        ensures
            r == pipe@.capacity - pipe@.messages.len(),
    {
        pipe.remaining()
    }

}

impl<T, E> Permit<T, E> {
    /// The element that is reserved.
    pub closed spec fn index(self) -> u8 {
        self.res.idx
    }

    /// The permit that holds the given reservation.
    pub(crate) fn new(res: Reservation) -> (r: Permit<T, E>)
        ensures
            r.index() == res.idx,
    {
        Permit { res, marker: PhantomData }
    }

    /// Sends a message. It is sent even if the receiver is gone.
    pub fn send<S: Elements<T>>(self, pipe: &mut TrickyPipe<T, E, S>, message: T)
        requires
            old(pipe).wf(),
            old(pipe)@.reserved.contains(self.index()),
        ensures
            final(pipe).wf(),
            final(pipe)@ == old(pipe)@.release(self.index()).push(message),
    {
        pipe.commit_element(self.res, message);
    }

    /// Drops the permit: the room can be used for other messages.
    pub fn drop<S: Elements<T>>(self, pipe: &mut TrickyPipe<T, E, S>)
        requires
            old(pipe).wf(),
            old(pipe)@.reserved.contains(self.index()),
        ensures
            final(pipe).wf(),
            final(pipe)@ == old(pipe)@.release(self.index()),
    {
        pipe.release_element(self.res);
    }
}

} // verus!
