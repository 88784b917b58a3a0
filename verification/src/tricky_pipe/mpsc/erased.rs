//! Handles that hide the type of the messages.
use super::channel_core::Reservation;
use super::error::{SendError, TrySendError};
use super::elements::Elements;
use super::pipe::TrickyPipe;
use super::typed::Permit;
use crate::tricky_pipe::typeinfo::{id_of, TypeInfo};
use core::marker::PhantomData;
use vstd::prelude::*;

verus! {

/// Reserves room in a channel, without regard to the type of its messages.
pub struct ErasedSender<E> {
    info: TypeInfo,
    marker: PhantomData<E>,
}

/// A permit to send a single message of a type that is not known yet.
#[must_use]
pub struct ErasedPermit<E> {
    res: Reservation,
    info: TypeInfo,
    marker: PhantomData<E>,
}

impl<E> ErasedSender<E> {
    /// What is known of the type of the messages.
    pub closed spec fn info(self) -> TypeInfo {
        self.info
    }

    /// A sender of messages of the given type.
    pub(crate) fn new(info: TypeInfo) -> (r: ErasedSender<E>)
        ensures
            r.info() == info,
    {
        ErasedSender { info, marker: PhantomData }
    }

    /// Reserves room for a message, without waiting for it.
    pub fn try_reserve<T, S: Elements<T>>(&self, pipe: &mut TrickyPipe<T, E, S>) -> (r: Result<
        ErasedPermit<E>,
        TrySendError<E>,
    >) where E: Clone,
        requires
            old(pipe).wf(),
        ensures
            final(pipe).wf(),
            match r {
                Ok(permit) => {
                    &&& !old(pipe)@.send_closed
                    &&& !old(pipe)@.full()
                    &&& !old(pipe)@.reserved.contains(permit.index())
                    &&& permit.info() == self.info()
                    &&& final(pipe)@ == old(pipe)@.reserve(permit.index())
                },
                Err(error) => old(pipe)@.refuses(error) && final(pipe)@ == old(pipe)@,
            },
    {
        match pipe.reserve_element() {
            Ok(res) => Ok(ErasedPermit { res, info: self.info.copy(), marker: PhantomData }),
            Err(error) => Err(error),
        }
    }

    /// Reserves room for a message, or returns `None` if the sender has to wait
    /// for it.
    pub fn poll_reserve<T, S: Elements<T>>(&self, pipe: &mut TrickyPipe<T, E, S>) -> (r: Option<
        Result<ErasedPermit<E>, SendError<E>>,
    >) where E: Clone,
        requires
            old(pipe).wf(),
        ensures
            final(pipe).wf(),
            match r {
                Some(Ok(permit)) => {
                    &&& !old(pipe)@.send_closed
                    &&& !old(pipe)@.full()
                    &&& !old(pipe)@.reserved.contains(permit.index())
                    &&& permit.info() == self.info()
                    &&& final(pipe)@ == old(pipe)@.reserve(permit.index())
                },
                Some(Err(SendError::Disconnected(_))) => {
                    &&& old(pipe)@.refuses(TrySendError::Disconnected(()))
                    &&& final(pipe)@ == old(pipe)@
                },
                Some(Err(SendError::Error { message, error })) => {
                    &&& old(pipe)@.refuses(TrySendError::Error { message, error })
                    &&& final(pipe)@ == old(pipe)@
                },
                None => old(pipe)@.refuses(TrySendError::Full(())) && final(pipe)@ == old(pipe)@,
            },
    {
        match self.try_reserve(pipe) {
            Ok(permit) => Some(Ok(permit)),
            Err(error) => match error.into_send_error() {
                Ok(error) => Some(Err(error)),
                Err(_) => None,
            },
        }
    }

    /// Whether the messages of the channel are of type `T`.
    #[must_use]
    pub fn is<T: 'static>(&self) -> (r: bool)
        ensures
            r == (self.info().spec_id() == id_of::<T>()),
    {
        self.info.matches::<T>()
    }

    /// The identifier of the type of the messages.
    #[must_use]
    pub fn type_id(&self) -> (r: core::any::TypeId)
        ensures
            r == self.info().spec_id(),
    {
        self.info.id()
    }

    /// The description of the type of the messages.
    #[must_use]
    pub fn name_of_type(&self) -> (r: &'static str)
        ensures
            r@ == self.info().spec_name(),
    {
        self.info.name()
    }

    /// One more sender for the same channel.
    pub fn clone<T, S: Elements<T>>(&self, pipe: &mut TrickyPipe<T, E, S>) -> (r: ErasedSender<E>)
        requires
            old(pipe).wf(),
            old(pipe)@.tx_count < usize::MAX / 2,
        ensures
            final(pipe).wf(),
            final(pipe)@ == old(pipe)@.add_tx(),
            r.info() == self.info(),
    {
        pipe.add_tx();
        ErasedSender { info: self.info.copy(), marker: PhantomData }
    }

    /// Drops the sender, and returns whether it was the last.
    pub fn drop<T, S: Elements<T>>(self, pipe: &mut TrickyPipe<T, E, S>) -> (r: bool)
        requires
            old(pipe).wf(),
            old(pipe)@.tx_count > 0,
        ensures
            final(pipe).wf(),
            r == (old(pipe)@.tx_count == 1),
            final(pipe)@ == old(pipe)@.drop_tx(),
    {
        pipe.drop_tx()
    }

    /// Closes the channel with an error. If it was already closed with an error,
    /// nothing is done, and `false` is returned.
    pub fn close_with_error<T, S: Elements<T>>(&self, pipe: &mut TrickyPipe<T, E, S>, error: E) -> (r: bool)
        requires
            old(pipe).wf(),
        ensures
            final(pipe).wf(),
            r == old(pipe)@.error is None,
            final(pipe)@ == old(pipe)@.close_with_error(error),
    {
        pipe.close_with_error(error)
    }

    /// Whether there is no message in the channel.
    #[must_use]
    pub fn is_empty<T, S: Elements<T>>(&self, pipe: &TrickyPipe<T, E, S>) -> (r: bool)
        requires
            pipe.wf(),
        ensures
            r == (pipe@.messages.len() == 0),
    {
        pipe.is_empty()
    }

    /// Whether the channel holds as many messages as it can.
    #[must_use]
    pub fn is_full<T, S: Elements<T>>(&self, pipe: &TrickyPipe<T, E, S>) -> (r: bool)
        requires
            pipe.wf(),
        ensures
            r == (pipe@.messages.len() == pipe@.capacity),
    {
        pipe.is_full()
    }

    /// The number of messages in the channel.
    #[must_use]
    pub fn len<T, S: Elements<T>>(&self, pipe: &TrickyPipe<T, E, S>) -> (r: usize)
        requires
            pipe.wf(),
        ensures
            r == pipe@.messages.len(),
    {
        pipe.len()
    }

    /// The number of messages that the channel can hold.
    #[must_use]
    pub fn capacity<T, S: Elements<T>>(&self, pipe: &TrickyPipe<T, E, S>) -> (r: usize)
        ensures
            r == pipe@.capacity,
    {
        pipe.capacity()
    }

    /// The capacity less the number of messages in the channel.
    #[must_use]
    pub fn remaining<T, S: Elements<T>>(&self, pipe: &TrickyPipe<T, E, S>) -> (r: usize)
        requires
            pipe.wf(),
        ensures
            r == pipe@.capacity - pipe@.messages.len(),
    {
        pipe.remaining()
    }

}

impl<E> ErasedPermit<E> {
    /// The element that is reserved.
    pub closed spec fn index(self) -> u8 {
        self.res.idx
    }

    /// What is known of the type of the messages.
    pub closed spec fn info(self) -> TypeInfo {
        self.info
    }

    /// The same permit for a message of type `T`, if the messages of the channel
    /// are of that type.
    pub fn downcast<T: 'static>(self) -> (r: Result<Permit<T, E>, ErasedPermit<E>>)
        ensures
            match r {
                Ok(permit) => self.info().spec_id() == id_of::<T>() && permit.index()
                    == self.index(),
                Err(same) => self.info().spec_id() != id_of::<T>() && same == self,
            },
    {
        if self.is::<T>() {
            Ok(Permit::new(self.res))
        } else {
            Err(self)
        }
    }

    /// Whether the messages of the channel are of type `T`.
    #[must_use]
    pub fn is<T: 'static>(&self) -> (r: bool)
        ensures
            r == (self.info().spec_id() == id_of::<T>()),
    {
        self.info.matches::<T>()
    }

    /// The identifier of the type of the messages.
    #[must_use]
    pub fn type_id(&self) -> (r: core::any::TypeId)
        ensures
            r == self.info().spec_id(),
    {
        self.info.id()
    }

    /// The description of the type of the messages.
    #[must_use]
    pub fn name_of_type(&self) -> (r: &'static str)
        ensures
            r@ == self.info().spec_name(),
    {
        self.info.name()
    }

    /// Drops the permit: the room can be used for other messages.
    pub fn drop<T, S: Elements<T>>(self, pipe: &mut TrickyPipe<T, E, S>)
        requires
            old(pipe).wf(),
            old(pipe)@.reserved.contains(self.index()),
        ensures
            final(pipe).wf(),
            final(pipe)@ == old(pipe)@.release(self.index()),
    {
        pipe.release_element(self.res);
    }
}

} // verus!
