//! Handles that send and receive messages as serialized bytes.
use super::channel_core::Reservation;
use super::error::{
    RecvError, SendError, SerSendError, SerTrySendError, TryRecvError, TrySendError,
};
use super::elements::Elements;
use super::pipe::{PipeView, TrickyPipe};
use super::typed::{Receiver, Sender};
use crate::codec::{
    cobs, decoding_framed, from_bytes, from_bytes_framed, to_slice, to_slice_framed, to_vec_framed,
    Codec, PostcardError,
};
use crate::tricky_pipe::typeinfo::{id_of, TypeInfo};
use core::marker::PhantomData;
use vstd::prelude::*;

verus! {

/// Receives messages as serialized bytes.
pub struct SerReceiver<E> {
    info: TypeInfo,
    marker: PhantomData<E>,
}

/// Sends messages that are given as serialized bytes.
pub struct DeserSender<E> {
    info: TypeInfo,
    marker: PhantomData<E>,
}

/// A message that was received, to be serialized. The room that it took in the
/// channel is not free until it is dropped.
#[must_use]
pub struct SerRecvRef<T> {
    res: Reservation,
    message: T,
}

/// A permit to send a single message that is given as serialized bytes.
#[must_use]
pub struct SerPermit<T, E> {
    res: Reservation,
    marker: PhantomData<(T, E)>,
}

impl<T: Codec + 'static, E, S: Elements<T>> TrickyPipe<T, E, S> {
    /// The receiver of the channel, the first time it is asked for.
    pub fn ser_receiver(&mut self, name: &'static str) -> (r: Option<SerReceiver<E>>)
        requires
            old(self).wf(),
        ensures
            final(self).wf(),
            r is Some <==> !old(self)@.rx_claimed,
            r matches Some(rx) ==> rx.info().spec_id() == id_of::<T>() && rx.info().spec_name()
                == name@,
            final(self)@ == (PipeView { rx_claimed: true, ..old(self)@ }),
    {
        if self.claim_rx() {
            Some(SerReceiver::new(TypeInfo::of::<T>(name)))
        } else {
            None
        }
    }

    /// One more sender.
    pub fn deser_sender(&mut self, name: &'static str) -> (r: DeserSender<E>)
        requires
            old(self).wf(),
            old(self)@.tx_count < usize::MAX / 2,
        ensures
            final(self).wf(),
            final(self)@ == old(self)@.add_tx(),
            r.info().spec_id() == id_of::<T>(),
            r.info().spec_name() == name@,
    {
        self.add_tx();
        DeserSender::new(TypeInfo::of::<T>(name))
    }
}

impl<E> SerReceiver<E> {
    /// What is known of the type of the messages.
    pub closed spec fn info(self) -> TypeInfo {
        self.info
    }

    /// A receiver of messages of the given type.
    pub(crate) fn new(info: TypeInfo) -> (r: SerReceiver<E>)
        ensures
            r.info() == info,
    {
        SerReceiver { info, marker: PhantomData }
    }

    /// Receives the next message, without waiting for one to be sent.
    pub fn try_recv<T, S: Elements<T>>(&self, pipe: &mut TrickyPipe<T, E, S>) -> (r: Result<
        SerRecvRef<T>,
        TryRecvError<E>,
    >) where E: Clone,
        requires
            old(pipe).wf(),
        ensures
            final(pipe).wf(),
            match r {
                Ok(message) => {
                    &&& old(pipe)@.messages.len() > 0
                    &&& message.message() == old(pipe)@.messages[0]
                    &&& !old(pipe)@.reserved.contains(message.index())
                    &&& final(pipe)@ == old(pipe)@.pop().reserve(message.index())
                },
                Err(error) => old(pipe)@.starves(error) && final(pipe)@ == old(pipe)@,
            },
    {
        match pipe.take_element() {
            Ok((res, message)) => Ok(SerRecvRef { res, message }),
            Err(error) => Err(error),
        }
    }

    /// Receives the next message, or returns `None` if the receiver has to wait
    /// for one to be sent.
    pub fn poll_recv<T, S: Elements<T>>(&self, pipe: &mut TrickyPipe<T, E, S>) -> (r: Option<
        Result<SerRecvRef<T>, RecvError<E>>,
    >) where E: Clone,
        requires
            old(pipe).wf(),
        ensures
            final(pipe).wf(),
            match r {
                Some(Ok(message)) => {
                    &&& old(pipe)@.messages.len() > 0
                    &&& message.message() == old(pipe)@.messages[0]
                    &&& !old(pipe)@.reserved.contains(message.index())
                    &&& final(pipe)@ == old(pipe)@.pop().reserve(message.index())
                },
                Some(Err(RecvError::Disconnected)) => {
                    &&& old(pipe)@.starves(TryRecvError::Disconnected)
                    &&& final(pipe)@ == old(pipe)@
                },
                Some(Err(RecvError::Error(error))) => {
                    &&& old(pipe)@.starves(TryRecvError::Error(error))
                    &&& final(pipe)@ == old(pipe)@
                },
                None => old(pipe)@.starves(TryRecvError::Empty) && final(pipe)@ == old(pipe)@,
            },
    {
        match self.try_recv(pipe) {
            Ok(message) => Some(Ok(message)),
            Err(TryRecvError::Disconnected) => Some(Err(RecvError::Disconnected)),
            Err(TryRecvError::Error(error)) => Some(Err(RecvError::Error(error))),
            Err(TryRecvError::Empty) => None,
        }
    }

    /// The same end of the channel, for messages of type `T`, if the messages of the
    /// channel are of that type.
    pub fn downcast<T: 'static>(self) -> (r: Result<Receiver<T, E>, SerReceiver<E>>)
        ensures
            match r {
                Ok(_) => self.info().spec_id() == id_of::<T>(),
                Err(same) => self.info().spec_id() != id_of::<T>() && same == self,
            },
    {
        if self.info.matches::<T>() {
            Ok(Receiver { marker: PhantomData })
        } else {
            Err(self)
        }
    }

    /// Drops the receiver: from then on, nothing can be sent.
    pub fn drop<T, S: Elements<T>>(self, pipe: &mut TrickyPipe<T, E, S>)
        requires
            old(pipe).wf(),
        ensures
            final(pipe).wf(),
            final(pipe)@ == old(pipe)@.close_rx(),
    {
        pipe.close_rx();
    }

    /// Closes the channel with an error. If it was already closed with an error,
    /// nothing is done, and `false` is returned.
    pub fn close_with_error<T, S: Elements<T>>(&self, pipe: &mut TrickyPipe<T, E, S>, error: E) -> (r: bool)
        requires
            old(pipe).wf(),
        ensures
            final(pipe).wf(),
            r == old(pipe)@.error is None,
            final(pipe)@ == old(pipe)@.close_with_error(error),
    {
        pipe.close_with_error(error)
    }

    /// Whether there is no message in the channel.
    #[must_use]
    pub fn is_empty<T, S: Elements<T>>(&self, pipe: &TrickyPipe<T, E, S>) -> (r: bool)
        requires
            pipe.wf(),
        ensures
            r == (pipe@.messages.len() == 0),
    {
        pipe.is_empty()
    }

    /// Whether the channel holds as many messages as it can.
    #[must_use]
    pub fn is_full<T, S: Elements<T>>(&self, pipe: &TrickyPipe<T, E, S>) -> (r: bool)
        requires
            pipe.wf(),
        ensures
            r == (pipe@.messages.len() == pipe@.capacity),
    {
        pipe.is_full()
    }

    /// The number of messages in the channel.
    #[must_use]
    pub fn len<T, S: Elements<T>>(&self, pipe: &TrickyPipe<T, E, S>) -> (r: usize)
        requires
            pipe.wf(),
        ensures
            r == pipe@.messages.len(),
    {
        pipe.len()
    }

    /// The number of messages that the channel can hold.
    #[must_use]
    pub fn capacity<T, S: Elements<T>>(&self, pipe: &TrickyPipe<T, E, S>) -> (r: usize)
        ensures
            r == pipe@.capacity,
    {
        pipe.capacity()
    }

    /// The capacity less the number of messages in the channel.
    #[must_use]
    pub fn remaining<T, S: Elements<T>>(&self, pipe: &TrickyPipe<T, E, S>) -> (r: usize)
        requires
            pipe.wf(),
        ensures
            r == pipe@.capacity - pipe@.messages.len(),
    {
        pipe.remaining()
    }

}

impl<T> SerRecvRef<T> {
    /// The element that the message took.
    pub closed spec fn index(self) -> u8 {
        self.res.idx
    }

    /// The message.
    pub closed spec fn message(self) -> T {
        self.message
    }

    /// The message.
    pub fn value(&self) -> (r: &T)
        ensures
            *r == self.message(),
    {
        &self.message
    }

    /// Drops the message: the room that it took can be used for other messages.
    pub fn drop<E, S: Elements<T>>(self, pipe: &mut TrickyPipe<T, E, S>)
        requires
            old(pipe).wf(),
            old(pipe)@.reserved.contains(self.index()),
        ensures
            final(pipe).wf(),
            final(pipe)@ == old(pipe)@.release(self.index()),
    {
        pipe.release_element(self.res);
    }
}

impl<T: Codec> SerRecvRef<T> {
    /// Serializes the message.
    pub fn to_vec(&self) -> (r: Vec<u8>)
        ensures
            r@ == T::encoding(self.message()@),
            T::encodable(self.message()@),
    {
        self.message.to_vec()
    }

    /// Serializes the message into the front of `buf`, and returns that part of
    /// `buf`. If it does not fit, `buf` is left as it is.
    pub fn to_slice<'a>(&self, buf: &'a mut [u8]) -> (r: Result<&'a mut [u8], PostcardError>)
        ensures
            match r {
                Ok(used) => {
                    let enc = T::encoding(self.message()@);
                    &&& enc.len() <= old(buf)@.len()
                    &&& used@ == enc
                    &&& final(buf)@ == final(used)@ + old(buf)@.skip(enc.len() as int)
                },
                Err(e) => {
                    &&& T::encoding(self.message()@).len() > old(buf)@.len()
                    &&& e == PostcardError::SerializeBufferFull
                    &&& final(buf)@ == old(buf)@
                },
            },
    {
        to_slice(&self.message, buf)
    }

    /// Serializes the message, and makes a frame of it.
    pub fn to_vec_framed(&self) -> (r: Vec<u8>)
        ensures
            r@ == cobs(T::encoding(self.message()@)),
            decoding_framed::<T>(r@) == Ok::<(T::V, Seq<u8>), PostcardError>(
                (self.message()@, Seq::empty()),
            ),
            r@.len() > 0,
            forall|i: int| 0 <= i < r@.len() ==> (#[trigger] r@[i] == 0 <==> i == r@.len() - 1),
    {
        to_vec_framed(&self.message)
    }

    /// Serializes the message, makes a frame of it at the front of `buf`, and
    /// returns that part of `buf`. If it does not fit, `buf` is left as it is.
    pub fn to_slice_framed<'a>(&self, buf: &'a mut [u8]) -> (r: Result<&'a mut [u8], PostcardError>)
        ensures
            match r {
                Ok(used) => {
                    let frame = cobs(T::encoding(self.message()@));
                    &&& frame.len() <= old(buf)@.len()
                    &&& used@ == frame
                    &&& final(buf)@ == final(used)@ + old(buf)@.skip(frame.len() as int)
                },
                Err(e) => {
                    &&& cobs(T::encoding(self.message()@)).len() > old(buf)@.len()
                    &&& e == PostcardError::SerializeBufferFull
                    &&& final(buf)@ == old(buf)@
                },
            },
    {
        to_slice_framed(&self.message, buf)
    }
}

impl<E> DeserSender<E> {
    /// What is known of the type of the messages.
    pub closed spec fn info(self) -> TypeInfo {
        self.info
    }

    /// A sender of messages of the given type.
    pub(crate) fn new(info: TypeInfo) -> (r: DeserSender<E>)
        ensures
            r.info() == info,
    {
        DeserSender { info, marker: PhantomData }
    }

    /// Reserves room for a message, without waiting for it.
    pub fn try_reserve<T, S: Elements<T>>(&self, pipe: &mut TrickyPipe<T, E, S>) -> (r: Result<
        SerPermit<T, E>,
        TrySendError<E>,
    >) where E: Clone,
        requires
            old(pipe).wf(),
        ensures
            final(pipe).wf(),
            match r {
                Ok(permit) => {
                    &&& !old(pipe)@.send_closed
                    &&& !old(pipe)@.full()
                    &&& !old(pipe)@.reserved.contains(permit.index())
                    &&& final(pipe)@ == old(pipe)@.reserve(permit.index())
                },
                Err(error) => old(pipe)@.refuses(error) && final(pipe)@ == old(pipe)@,
            },
    {
        match pipe.reserve_element() {
            Ok(res) => Ok(SerPermit { res, marker: PhantomData }),
            Err(error) => Err(error),
        }
    }

    /// Reserves room for a message, or returns `None` if the sender has to wait
    /// for it.
    pub fn poll_reserve<T, S: Elements<T>>(&self, pipe: &mut TrickyPipe<T, E, S>) -> (r: Option<
        Result<SerPermit<T, E>, SendError<E>>,
    >) where E: Clone,
        requires
            old(pipe).wf(),
        ensures
            final(pipe).wf(),
            match r {
                Some(Ok(permit)) => {
                    &&& !old(pipe)@.send_closed
                    &&& !old(pipe)@.full()
                    &&& !old(pipe)@.reserved.contains(permit.index())
                    &&& final(pipe)@ == old(pipe)@.reserve(permit.index())
                },
                Some(Err(SendError::Disconnected(_))) => {
                    &&& old(pipe)@.refuses(TrySendError::Disconnected(()))
                    &&& final(pipe)@ == old(pipe)@
                },
                Some(Err(SendError::Error { message, error })) => {
                    &&& old(pipe)@.refuses(TrySendError::Error { message, error })
                    &&& final(pipe)@ == old(pipe)@
                },
                None => old(pipe)@.refuses(TrySendError::Full(())) && final(pipe)@ == old(pipe)@,
            },
    {
        match self.try_reserve(pipe) {
            Ok(permit) => Some(Ok(permit)),
            Err(error) => match error.into_send_error() {
                Ok(error) => Some(Err(error)),
                Err(_) => None,
            },
        }
    }

    /// Sends the message that `bytes` stands for, without waiting for room. That
    /// there is none comes before that the bytes stand for no message.
    pub fn try_send<T: Codec, S: Elements<T>>(&self, pipe: &mut TrickyPipe<T, E, S>, bytes: &[u8]) -> (r: Result<
        (),
        SerTrySendError<E>,
    >) where E: Clone,
        requires
            old(pipe).wf(),
        ensures
            final(pipe).wf(),
            match r {
                Ok(_) => {
                    &&& !old(pipe)@.send_closed
                    &&& !old(pipe)@.full()
                    &&& T::decoding(bytes@) matches Ok(decoded)
                    &&& exists|message: T| #[trigger]
                        message@ == decoded.0 && final(pipe)@ == old(pipe)@.push(message)
                },
                Err(SerTrySendError::Deserialize(e)) => {
                    &&& !old(pipe)@.send_closed
                    &&& !old(pipe)@.full()
                    &&& T::decoding(bytes@) == Err::<(T::V, Seq<u8>), PostcardError>(e)
                    &&& final(pipe)@ == old(pipe)@
                },
                Err(SerTrySendError::Full) => {
                    &&& old(pipe)@.refuses(TrySendError::Full(()))
                    &&& final(pipe)@ == old(pipe)@
                },
                Err(SerTrySendError::Disconnected) => {
                    &&& old(pipe)@.refuses(TrySendError::Disconnected(()))
                    &&& final(pipe)@ == old(pipe)@
                },
                Err(SerTrySendError::Error(error)) => {
                    &&& old(pipe)@.refuses(TrySendError::Error { message: (), error })
                    &&& final(pipe)@ == old(pipe)@
                },
            },
    {
        match self.try_reserve(pipe) {
            Ok(permit) => {
                let ghost idx = permit.index();
                assert(old(pipe)@.reserved.insert(idx).remove(idx) =~= old(pipe)@.reserved);
                match permit.send(pipe, bytes) {
                    Ok(()) => Ok(()),
                    Err(e) => Err(SerTrySendError::Deserialize(e)),
                }
            },
            Err(error) => Err(SerTrySendError::from_try_send_error(error)),
        }
    }

    /// Sends the message that the frame `bytes` stands for, without waiting for
    /// room. That there is none comes before that the frame stands for no message.
    pub fn try_send_framed<T: Codec, S: Elements<T>>(&self, pipe: &mut TrickyPipe<T, E, S>, bytes: &[u8]) -> (r: Result<
        (),
        SerTrySendError<E>,
    >) where E: Clone,
        requires
            old(pipe).wf(),
        ensures
            final(pipe).wf(),
            match r {
                Ok(_) => {
                    &&& !old(pipe)@.send_closed
                    &&& !old(pipe)@.full()
                    &&& decoding_framed::<T>(bytes@) matches Ok(decoded)
                    &&& exists|message: T| #[trigger]
                        message@ == decoded.0 && final(pipe)@ == old(pipe)@.push(message)
                },
                Err(SerTrySendError::Deserialize(e)) => {
                    &&& !old(pipe)@.send_closed
                    &&& !old(pipe)@.full()
                    &&& decoding_framed::<T>(bytes@) == Err::<(T::V, Seq<u8>), PostcardError>(e)
                    &&& final(pipe)@ == old(pipe)@
                },
                Err(SerTrySendError::Full) => {
                    &&& old(pipe)@.refuses(TrySendError::Full(()))
                    &&& final(pipe)@ == old(pipe)@
                },
                Err(SerTrySendError::Disconnected) => {
                    &&& old(pipe)@.refuses(TrySendError::Disconnected(()))
                    &&& final(pipe)@ == old(pipe)@
                },
                Err(SerTrySendError::Error(error)) => {
                    &&& old(pipe)@.refuses(TrySendError::Error { message: (), error })
                    &&& final(pipe)@ == old(pipe)@
                },
            },
    {
        match self.try_reserve(pipe) {
            Ok(permit) => {
                let ghost idx = permit.index();
                assert(old(pipe)@.reserved.insert(idx).remove(idx) =~= old(pipe)@.reserved);
                match permit.send_framed(pipe, bytes) {
                    Ok(()) => Ok(()),
                    Err(e) => Err(SerTrySendError::Deserialize(e)),
                }
            },
            Err(error) => Err(SerTrySendError::from_try_send_error(error)),
        }
    }

    /// Sends a message that was decoded outside, without waiting for room, or
    /// reports that it could not be decoded. That there is no room comes first.
    pub fn try_send_decoded<T, S: Elements<T>>(
        &self,
        pipe: &mut TrickyPipe<T, E, S>,
        decoded: Result<T, PostcardError>,
    ) -> (r: Result<(), SerTrySendError<E>>) where E: Clone,
        requires
            old(pipe).wf(),
        ensures
            final(pipe).wf(),
            match r {
                Ok(_) => {
                    &&& !old(pipe)@.send_closed
                    &&& !old(pipe)@.full()
                    &&& decoded matches Ok(message)
                    &&& final(pipe)@ == old(pipe)@.push(message)
                },
                Err(SerTrySendError::Deserialize(e)) => {
                    &&& !old(pipe)@.send_closed
                    &&& !old(pipe)@.full()
                    &&& decoded == Err::<T, PostcardError>(e)
                    &&& final(pipe)@ == old(pipe)@
                },
                Err(SerTrySendError::Full) => {
                    &&& old(pipe)@.refuses(TrySendError::Full(()))
                    &&& final(pipe)@ == old(pipe)@
                },
                Err(SerTrySendError::Disconnected) => {
                    &&& old(pipe)@.refuses(TrySendError::Disconnected(()))
                    &&& final(pipe)@ == old(pipe)@
                },
                Err(SerTrySendError::Error(error)) => {
                    &&& old(pipe)@.refuses(TrySendError::Error { message: (), error })
                    &&& final(pipe)@ == old(pipe)@
                },
            },
    {
        match self.try_reserve(pipe) {
            Ok(permit) => {
                let ghost idx = permit.index();
                assert(old(pipe)@.reserved.insert(idx).remove(idx) =~= old(pipe)@.reserved);
                match permit.send_decoded(pipe, decoded) {
                    Ok(()) => Ok(()),
                    Err(e) => Err(SerTrySendError::Deserialize(e)),
                }
            },
            Err(error) => Err(SerTrySendError::from_try_send_error(error)),
        }
    }

    /// Sends the message that `bytes` stands for, or returns `None` if the sender
    /// has to wait for room.
    pub fn poll_send<T: Codec, S: Elements<T>>(&self, pipe: &mut TrickyPipe<T, E, S>, bytes: &[u8]) -> (r: Option<
        Result<(), SerSendError<E>>,
    >) where E: Clone,
        requires
            old(pipe).wf(),
        ensures
            final(pipe).wf(),
            match r {
                Some(Ok(_)) => {
                    &&& !old(pipe)@.send_closed
                    &&& !old(pipe)@.full()
                    &&& T::decoding(bytes@) matches Ok(decoded)
                    &&& exists|message: T| #[trigger]
                        message@ == decoded.0 && final(pipe)@ == old(pipe)@.push(message)
                },
                Some(Err(SerSendError::Deserialize(e))) => {
                    &&& !old(pipe)@.send_closed
                    &&& !old(pipe)@.full()
                    &&& T::decoding(bytes@) == Err::<(T::V, Seq<u8>), PostcardError>(e)
                    &&& final(pipe)@ == old(pipe)@
                },
                Some(Err(SerSendError::Disconnected)) => {
                    &&& old(pipe)@.refuses(TrySendError::Disconnected(()))
                    &&& final(pipe)@ == old(pipe)@
                },
                Some(Err(SerSendError::Error(error))) => {
                    &&& old(pipe)@.refuses(TrySendError::Error { message: (), error })
                    &&& final(pipe)@ == old(pipe)@
                },
                None => old(pipe)@.refuses(TrySendError::Full(())) && final(pipe)@ == old(pipe)@,
            },
    {
        match self.poll_reserve(pipe) {
            Some(Ok(permit)) => {
                let ghost idx = permit.index();
                assert(old(pipe)@.reserved.insert(idx).remove(idx) =~= old(pipe)@.reserved);
                match permit.send(pipe, bytes) {
                    Ok(()) => Some(Ok(())),
                    Err(e) => Some(Err(SerSendError::Deserialize(e))),
                }
            },
            Some(Err(error)) => Some(Err(SerSendError::from_send_error(error))),
            None => None,
        }
    }

    /// Sends the message that the frame `bytes` stands for, or returns `None` if
    /// the sender has to wait for room.
    pub fn poll_send_framed<T: Codec, S: Elements<T>>(&self, pipe: &mut TrickyPipe<T, E, S>, bytes: &[u8]) -> (r: Option<
        Result<(), SerSendError<E>>,
    >) where E: Clone,
        requires
            old(pipe).wf(),
        ensures
            final(pipe).wf(),
            match r {
                Some(Ok(_)) => {
                    &&& !old(pipe)@.send_closed
                    &&& !old(pipe)@.full()
                    &&& decoding_framed::<T>(bytes@) matches Ok(decoded)
                    &&& exists|message: T| #[trigger]
                        message@ == decoded.0 && final(pipe)@ == old(pipe)@.push(message)
                },
                Some(Err(SerSendError::Deserialize(e))) => {
                    &&& !old(pipe)@.send_closed
                    &&& !old(pipe)@.full()
                    &&& decoding_framed::<T>(bytes@) == Err::<(T::V, Seq<u8>), PostcardError>(e)
                    &&& final(pipe)@ == old(pipe)@
                },
                Some(Err(SerSendError::Disconnected)) => {
                    &&& old(pipe)@.refuses(TrySendError::Disconnected(()))
                    &&& final(pipe)@ == old(pipe)@
                },
                Some(Err(SerSendError::Error(error))) => {
                    &&& old(pipe)@.refuses(TrySendError::Error { message: (), error })
                    &&& final(pipe)@ == old(pipe)@
                },
                None => old(pipe)@.refuses(TrySendError::Full(())) && final(pipe)@ == old(pipe)@,
            },
    {
        match self.poll_reserve(pipe) {
            Some(Ok(permit)) => {
                let ghost idx = permit.index();
                assert(old(pipe)@.reserved.insert(idx).remove(idx) =~= old(pipe)@.reserved);
                match permit.send_framed(pipe, bytes) {
                    Ok(()) => Some(Ok(())),
                    Err(e) => Some(Err(SerSendError::Deserialize(e))),
                }
            },
            Some(Err(error)) => Some(Err(SerSendError::from_send_error(error))),
            None => None,
        }
    }

    /// The same end of the channel, for messages of type `T`, if the messages of the
    /// channel are of that type.
    pub fn downcast<T: 'static>(self) -> (r: Result<Sender<T, E>, DeserSender<E>>)
        ensures
            match r {
                Ok(_) => self.info().spec_id() == id_of::<T>(),
                Err(same) => self.info().spec_id() != id_of::<T>() && same == self,
            },
    {
        if self.info.matches::<T>() {
            Ok(Sender { marker: PhantomData })
        } else {
            Err(self)
        }
    }

    /// One more sender for the same channel.
    pub fn clone<T, S: Elements<T>>(&self, pipe: &mut TrickyPipe<T, E, S>) -> (r: DeserSender<E>)
        requires
            old(pipe).wf(),
            old(pipe)@.tx_count < usize::MAX / 2,
        ensures
            final(pipe).wf(),
            final(pipe)@ == old(pipe)@.add_tx(),
            r.info() == self.info(),
    {
        pipe.add_tx();
        DeserSender { info: self.info.copy(), marker: PhantomData }
    }

    /// Drops the sender, and returns whether it was the last.
    pub fn drop<T, S: Elements<T>>(self, pipe: &mut TrickyPipe<T, E, S>) -> (r: bool)
        requires
            old(pipe).wf(),
            old(pipe)@.tx_count > 0,
        ensures
            final(pipe).wf(),
            r == (old(pipe)@.tx_count == 1),
            final(pipe)@ == old(pipe)@.drop_tx(),
    {
        pipe.drop_tx()
    }

    /// Closes the channel with an error. If it was already closed with an error,
    /// nothing is done, and `false` is returned.
    pub fn close_with_error<T, S: Elements<T>>(&self, pipe: &mut TrickyPipe<T, E, S>, error: E) -> (r: bool)
        requires
            old(pipe).wf(),
        ensures
            final(pipe).wf(),
            r == old(pipe)@.error is None,
            final(pipe)@ == old(pipe)@.close_with_error(error),
    {
        pipe.close_with_error(error)
    }

    /// Whether there is no message in the channel.
    #[must_use]
    pub fn is_empty<T, S: Elements<T>>(&self, pipe: &TrickyPipe<T, E, S>) -> (r: bool)
        requires
            pipe.wf(),
        ensures
            r == (pipe@.messages.len() == 0),
    {
        pipe.is_empty()
    }

    /// Whether the channel holds as many messages as it can.
    #[must_use]
    pub fn is_full<T, S: Elements<T>>(&self, pipe: &TrickyPipe<T, E, S>) -> (r: bool)
        requires
            pipe.wf(),
        ensures
            r == (pipe@.messages.len() == pipe@.capacity),
    {
        pipe.is_full()
    }

    /// The number of messages in the channel.
    #[must_use]
    pub fn len<T, S: Elements<T>>(&self, pipe: &TrickyPipe<T, E, S>) -> (r: usize)
        requires
            pipe.wf(),
        ensures
            r == pipe@.messages.len(),
    {
        pipe.len()
    }

    /// The number of messages that the channel can hold.
    #[must_use]
    pub fn capacity<T, S: Elements<T>>(&self, pipe: &TrickyPipe<T, E, S>) -> (r: usize)
        ensures
            r == pipe@.capacity,
    {
        pipe.capacity()
    }

    /// The capacity less the number of messages in the channel.
    #[must_use]
    pub fn remaining<T, S: Elements<T>>(&self, pipe: &TrickyPipe<T, E, S>) -> (r: usize)
        requires
            pipe.wf(),
        ensures
            r == pipe@.capacity - pipe@.messages.len(),
    {
        pipe.remaining()
    }

}

impl<T, E> SerPermit<T, E> {
    /// The element that is reserved.
    pub closed spec fn index(self) -> u8 {
        self.res.idx
    }

    /// Sends a message that was decoded outside. If it could not be decoded, the
    /// room can be used for other messages.
    pub fn send_decoded<S: Elements<T>>(
        self,
        pipe: &mut TrickyPipe<T, E, S>,
        decoded: Result<T, PostcardError>,
    ) -> (r: Result<(), PostcardError>)
        requires
            old(pipe).wf(),
            old(pipe)@.reserved.contains(self.index()),
        ensures
            final(pipe).wf(),
            match decoded {
                Ok(message) => {
                    &&& r is Ok
                    &&& final(pipe)@ == old(pipe)@.release(self.index()).push(message)
                },
                Err(e) => {
                    &&& r == Err::<(), PostcardError>(e)
                    &&& final(pipe)@ == old(pipe)@.release(self.index())
                },
            },
    {
        match decoded {
            Ok(message) => {
                pipe.commit_element(self.res, message);
                Ok(())
            },
            Err(e) => {
                pipe.release_element(self.res);
                Err(e)
            },
        }
    }

    /// Drops the permit: the room can be used for other messages.
    pub fn drop<S: Elements<T>>(self, pipe: &mut TrickyPipe<T, E, S>)
        requires
            old(pipe).wf(),
            old(pipe)@.reserved.contains(self.index()),
        ensures
            final(pipe).wf(),
            final(pipe)@ == old(pipe)@.release(self.index()),
    {
        pipe.release_element(self.res);
    }
}

impl<T: Codec, E> SerPermit<T, E> {
    /// Sends the message that `bytes` stands for. If they stand for none, the
    /// room can be used for other messages.
    pub fn send<S: Elements<T>>(self, pipe: &mut TrickyPipe<T, E, S>, bytes: &[u8]) -> (r: Result<(), PostcardError>)
        requires
            old(pipe).wf(),
            old(pipe)@.reserved.contains(self.index()),
        ensures
            final(pipe).wf(),
            match r {
                Ok(_) => {
                    &&& T::decoding(bytes@) matches Ok(decoded)
                    &&& exists|message: T| #[trigger]
                        message@ == decoded.0 && final(pipe)@ == old(pipe)@.release(
                            self.index(),
                        ).push(message)
                },
                Err(e) => {
                    &&& T::decoding(bytes@) == Err::<(T::V, Seq<u8>), PostcardError>(e)
                    &&& final(pipe)@ == old(pipe)@.release(self.index())
                },
            },
    {
        let decoded = from_bytes::<T>(bytes);
        self.send_decoded(pipe, decoded)
    }

    /// Sends the message that the frame `bytes` stands for. If it stands for none,
    /// the room can be used for other messages.
    pub fn send_framed<S: Elements<T>>(self, pipe: &mut TrickyPipe<T, E, S>, bytes: &[u8]) -> (r: Result<(), PostcardError>)
        requires
            old(pipe).wf(),
            old(pipe)@.reserved.contains(self.index()),
        ensures
            final(pipe).wf(),
            match r {
                Ok(_) => {
                    &&& decoding_framed::<T>(bytes@) matches Ok(decoded)
                    &&& exists|message: T| #[trigger]
                        message@ == decoded.0 && final(pipe)@ == old(pipe)@.release(
                            self.index(),
                        ).push(message)
                },
                Err(e) => {
                    &&& decoding_framed::<T>(bytes@) == Err::<(T::V, Seq<u8>), PostcardError>(e)
                    &&& final(pipe)@ == old(pipe)@.release(self.index())
                },
            },
    {
        let decoded = from_bytes_framed::<T>(bytes);
        self.send_decoded(pipe, decoded)
    }
}

} // verus!
