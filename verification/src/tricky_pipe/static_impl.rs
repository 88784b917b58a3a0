//! Channels in storage of a fixed size, which holds the messages in place.
use crate::codec::{cobs, decoding_framed, Codec, PostcardError};
use crate::plugtail::vacant_array;
use crate::tricky_pipe::mpsc;
use crate::tricky_pipe::mpsc::error as full_error;
use crate::tricky_pipe::mpsc::PipeView;
use crate::tricky_pipe::typeinfo::{id_of, TypeInfo};
use vstd::prelude::*;

use super::error::{SendError, SerSendError, SerTrySendError, TryRecvError, TrySendError};

verus! {

/// A channel of messages of type `T`, with room for `CAPACITY` of them.
pub struct StaticTrickyPipe<T, const CAPACITY: usize> {
    pipe: mpsc::TrickyPipe<T, (), [Option<T>; CAPACITY]>,
}

/// The number of messages that a channel can have room for.
pub const MAX_CAPACITY: usize = 64;

/// Receives messages of type `T`.
pub struct Receiver<T> {
    rx: mpsc::Receiver<T, ()>,
}

/// Sends messages of type `T`.
pub struct Sender<T> {
    tx: mpsc::Sender<T, ()>,
}

/// Receives messages as serialized bytes.
pub struct SerReceiver {
    rx: mpsc::SerReceiver<()>,
}

/// Sends messages that are given as serialized bytes.
pub struct DeserSender {
    tx: mpsc::DeserSender<()>,
}

/// A message that was received, to be serialized.
#[must_use]
pub struct SerRecvRef<T> {
    message: mpsc::SerRecvRef<T>,
}

/// A permit to send a single message of type `T`.
#[must_use]
pub struct Permit<T> {
    permit: mpsc::Permit<T, ()>,
}

/// A permit to send a single message that is given as serialized bytes.
#[must_use]
pub struct SerPermit<T> {
    permit: mpsc::SerPermit<T, ()>,
}

/// Whether `error` is what a sender is to be told: that the channel is closed
/// comes before that it is full.
pub open spec fn refuses<T>(pipe: PipeView<T, ()>, error: TrySendError) -> bool {
    match error {
        TrySendError::Full(_) => !pipe.send_closed && pipe.full(),
        TrySendError::Closed(_) => pipe.send_closed,
    }
}

/// Whether `error` is what the receiver is to be told: messages come first.
pub open spec fn starves<T>(pipe: PipeView<T, ()>, error: TryRecvError) -> bool {
    &&& pipe.messages.len() == 0
    &&& match error {
        TryRecvError::Empty => !pipe.recv_closed,
        TryRecvError::Closed => pipe.recv_closed,
    }
}

fn send_error(error: full_error::TrySendError<()>) -> (r: TrySendError)
    ensures
        r == match error {
            full_error::TrySendError::Full(_) => TrySendError::Full(()),
            _ => TrySendError::Closed(()),
        },
{
    match error {
        full_error::TrySendError::Full(_) => TrySendError::Full(()),
        _ => TrySendError::Closed(()),
    }
}

fn recv_error(error: full_error::TryRecvError<()>) -> (r: TryRecvError)
    ensures
        r == match error {
            full_error::TryRecvError::Empty => TryRecvError::Empty,
            _ => TryRecvError::Closed,
        },
{
    match error {
        full_error::TryRecvError::Empty => TryRecvError::Empty,
        _ => TryRecvError::Closed,
    }
}

impl<T, const CAPACITY: usize> View for StaticTrickyPipe<T, CAPACITY> {
    type V = PipeView<T, ()>;

    closed spec fn view(&self) -> PipeView<T, ()> {
        self.pipe@
    }
}

impl<T, const CAPACITY: usize> StaticTrickyPipe<T, CAPACITY> {
    /// The channel is in order, and was not closed with an error.
    pub closed spec fn wf(self) -> bool {
        self.pipe.wf() && self.pipe@.error is None && self.pipe@.capacity == CAPACITY
    }

    /// A channel in order has valid contents.
    pub proof fn lemma_valid(self)
        requires
            self.wf(),
        ensures
            self@.valid(),
            self@.error is None,
    {
        self.pipe.lemma_valid();
    }

    /// A channel with room for `CAPACITY` messages, which must be a power of two,
    /// and at most [`MAX_CAPACITY`]. It counts as a sender itself, since senders can
    /// be made from it.
    pub fn new() -> (r: StaticTrickyPipe<T, CAPACITY>)
        requires
            vstd::arithmetic::power2::is_pow2(CAPACITY as int),
            CAPACITY <= MAX_CAPACITY,
        ensures
            r.wf(),
            r@ == PipeView::<T, ()>::fresh(CAPACITY as nat).add_tx(),
    {
        let mut pipe = mpsc::TrickyPipe::with_elements(CAPACITY as u8, vacant_array::<T, CAPACITY>());
        pipe.add_handle();
        StaticTrickyPipe { pipe }
    }

    /// The receiver of the channel, the first time it is asked for.
    pub fn receiver(&mut self) -> (r: Option<Receiver<T>>)
        requires
            old(self).wf(),
        ensures
            final(self).wf(),
            r is Some <==> !old(self)@.rx_claimed,
            final(self)@ == (PipeView { rx_claimed: true, ..old(self)@ }),
    {
        match self.pipe.receiver() {
            Some(rx) => Some(Receiver { rx }),
            None => None,
        }
    }

    /// One more sender.
    pub fn sender(&mut self) -> (r: Sender<T>)
        requires
            old(self).wf(),
            old(self)@.tx_count < usize::MAX / 2,
        ensures
            final(self).wf(),
            final(self)@ == old(self)@.add_tx(),
    {
        Sender { tx: self.pipe.sender() }
    }
}

impl<T: Codec + 'static, const CAPACITY: usize> StaticTrickyPipe<T, CAPACITY> {
    /// The receiver of the channel, the first time it is asked for.
    pub fn ser_receiver(&mut self, name: &'static str) -> (r: Option<SerReceiver>)
        requires
            old(self).wf(),
        ensures
            final(self).wf(),
            r is Some <==> !old(self)@.rx_claimed,
            r matches Some(rx) ==> rx.info().spec_id() == id_of::<T>() && rx.info().spec_name()
                == name@,
            final(self)@ == (PipeView { rx_claimed: true, ..old(self)@ }),
    {
        match self.pipe.ser_receiver(name) {
            Some(rx) => Some(SerReceiver { rx }),
            None => None,
        }
    }

    /// One more sender.
    pub fn deser_sender(&mut self, name: &'static str) -> (r: DeserSender)
        requires
            old(self).wf(),
            old(self)@.tx_count < usize::MAX / 2,
        ensures
            final(self).wf(),
            final(self)@ == old(self)@.add_tx(),
            r.info().spec_id() == id_of::<T>(),
            r.info().spec_name() == name@,
    {
        DeserSender { tx: self.pipe.deser_sender(name) }
    }
}

impl<T> Receiver<T> {
    /// Receives the next message, without waiting for one to be sent.
    pub fn try_recv<const CAPACITY: usize>(&self, pipe: &mut StaticTrickyPipe<T, CAPACITY>) -> (r: Result<T, TryRecvError>)
        requires
            old(pipe).wf(),
        ensures
            final(pipe).wf(),
            match r {
                Ok(message) => {
                    &&& old(pipe)@.messages.len() > 0
                    &&& message == old(pipe)@.messages[0]
                    &&& final(pipe)@ == old(pipe)@.pop()
                },
                Err(error) => starves(old(pipe)@, error) && final(pipe)@ == old(pipe)@,
            },
    {
        match self.rx.try_recv(&mut pipe.pipe) {
            Ok(message) => Ok(message),
            Err(error) => Err(recv_error(error)),
        }
    }

    /// Receives the next message, or reports that there will be none. The outer
    /// `None` means that the receiver has to wait.
    pub fn poll_recv<const CAPACITY: usize>(&self, pipe: &mut StaticTrickyPipe<T, CAPACITY>) -> (r: Option<Option<T>>)
        requires
            old(pipe).wf(),
        ensures
            final(pipe).wf(),
            match r {
                Some(Some(message)) => {
                    &&& old(pipe)@.messages.len() > 0
                    &&& message == old(pipe)@.messages[0]
                    &&& final(pipe)@ == old(pipe)@.pop()
                },
                Some(None) => {
                    &&& starves(old(pipe)@, TryRecvError::Closed)
                    &&& final(pipe)@ == old(pipe)@
                },
                None => starves(old(pipe)@, TryRecvError::Empty) && final(pipe)@ == old(pipe)@,
            },
    {
        match self.try_recv(pipe) {
            Ok(message) => Some(Some(message)),
            Err(TryRecvError::Closed) => Some(None),
            Err(TryRecvError::Empty) => None,
        }
    }

    /// Drops the receiver: from then on, nothing can be sent.
    pub fn drop<const CAPACITY: usize>(self, pipe: &mut StaticTrickyPipe<T, CAPACITY>)
        requires
            old(pipe).wf(),
        ensures
            final(pipe).wf(),
            final(pipe)@ == old(pipe)@.close_rx(),
    {
        self.rx.drop(&mut pipe.pipe);
    }

    /// Whether there is no message in the channel.
    #[must_use]
    pub fn is_empty<const CAPACITY: usize>(&self, pipe: &StaticTrickyPipe<T, CAPACITY>) -> (r: bool)
        requires
            pipe.wf(),
        ensures
            r == (pipe@.messages.len() == 0),
    {
        pipe.pipe.is_empty()
    }

    /// Whether the channel holds as many messages as it can.
    #[must_use]
    pub fn is_full<const CAPACITY: usize>(&self, pipe: &StaticTrickyPipe<T, CAPACITY>) -> (r: bool)
        requires
            pipe.wf(),
        ensures
            r == (pipe@.messages.len() == pipe@.capacity),
    {
        pipe.pipe.is_full()
    }

    /// The number of messages in the channel.
    #[must_use]
    pub fn len<const CAPACITY: usize>(&self, pipe: &StaticTrickyPipe<T, CAPACITY>) -> (r: usize)
        requires
            pipe.wf(),
        ensures
            r == pipe@.messages.len(),
    {
        pipe.pipe.len()
    }

    /// The number of messages that the channel can hold.
    #[must_use]
    pub fn capacity<const CAPACITY: usize>(&self, pipe: &StaticTrickyPipe<T, CAPACITY>) -> (r: usize)
        ensures
            r == pipe@.capacity,
    {
        pipe.pipe.capacity()
    }

    /// The capacity less the number of messages in the channel.
    #[must_use]
    pub fn remaining<const CAPACITY: usize>(&self, pipe: &StaticTrickyPipe<T, CAPACITY>) -> (r: usize)
        requires
            pipe.wf(),
        ensures
            r == pipe@.capacity - pipe@.messages.len(),
    {
        pipe.pipe.remaining()
    }
}

impl SerReceiver {
    /// What is known of the type of the messages.
    pub closed spec fn info(self) -> TypeInfo {
        self.rx.info()
    }

    /// Receives the next message, without waiting for one to be sent.
    pub fn try_recv<T: Codec, const CAPACITY: usize>(&self, pipe: &mut StaticTrickyPipe<T, CAPACITY>) -> (r: Result<SerRecvRef<T>, TryRecvError>)
        requires
            old(pipe).wf(),
        ensures
            final(pipe).wf(),
            match r {
                Ok(message) => {
                    &&& old(pipe)@.messages.len() > 0
                    &&& message.message() == old(pipe)@.messages[0]
                    &&& !old(pipe)@.reserved.contains(message.index())
                    &&& final(pipe)@ == old(pipe)@.pop().reserve(message.index())
                },
                Err(error) => starves(old(pipe)@, error) && final(pipe)@ == old(pipe)@,
            },
    {
        match self.rx.try_recv(&mut pipe.pipe) {
            Ok(message) => Ok(SerRecvRef { message }),
            Err(error) => Err(recv_error(error)),
        }
    }

    /// Receives the next message, or reports that there will be none. The outer
    /// `None` means that the receiver has to wait.
    pub fn poll_recv<T: Codec, const CAPACITY: usize>(&self, pipe: &mut StaticTrickyPipe<T, CAPACITY>) -> (r: Option<Option<SerRecvRef<T>>>)
        requires
            old(pipe).wf(),
        ensures
            final(pipe).wf(),
            match r {
                Some(Some(message)) => {
                    &&& old(pipe)@.messages.len() > 0
                    &&& message.message() == old(pipe)@.messages[0]
                    &&& !old(pipe)@.reserved.contains(message.index())
                    &&& final(pipe)@ == old(pipe)@.pop().reserve(message.index())
                },
                Some(None) => {
                    &&& starves(old(pipe)@, TryRecvError::Closed)
                    &&& final(pipe)@ == old(pipe)@
                },
                None => starves(old(pipe)@, TryRecvError::Empty) && final(pipe)@ == old(pipe)@,
            },
    {
        match self.try_recv(pipe) {
            Ok(message) => Some(Some(message)),
            Err(TryRecvError::Closed) => Some(None),
            Err(TryRecvError::Empty) => None,
        }
    }

    /// Drops the receiver: from then on, nothing can be sent.
    pub fn drop<T, const CAPACITY: usize>(self, pipe: &mut StaticTrickyPipe<T, CAPACITY>)
        requires
            old(pipe).wf(),
        ensures
            final(pipe).wf(),
            final(pipe)@ == old(pipe)@.close_rx(),
    {
        self.rx.drop(&mut pipe.pipe);
    }

    /// Whether there is no message in the channel.
    #[must_use]
    pub fn is_empty<T, const CAPACITY: usize>(&self, pipe: &StaticTrickyPipe<T, CAPACITY>) -> (r: bool)
        requires
            pipe.wf(),
        ensures
            r == (pipe@.messages.len() == 0),
    {
        pipe.pipe.is_empty()
    }

    /// Whether the channel holds as many messages as it can.
    #[must_use]
    pub fn is_full<T, const CAPACITY: usize>(&self, pipe: &StaticTrickyPipe<T, CAPACITY>) -> (r: bool)
        requires
            pipe.wf(),
        ensures
            r == (pipe@.messages.len() == pipe@.capacity),
    {
        pipe.pipe.is_full()
    }

    /// The number of messages in the channel.
    #[must_use]
    pub fn len<T, const CAPACITY: usize>(&self, pipe: &StaticTrickyPipe<T, CAPACITY>) -> (r: usize)
        requires
            pipe.wf(),
        ensures
            r == pipe@.messages.len(),
    {
        pipe.pipe.len()
    }

    /// The number of messages that the channel can hold.
    #[must_use]
    pub fn capacity<T, const CAPACITY: usize>(&self, pipe: &StaticTrickyPipe<T, CAPACITY>) -> (r: usize)
        ensures
            r == pipe@.capacity,
    {
        pipe.pipe.capacity()
    }

    /// The capacity less the number of messages in the channel.
    #[must_use]
    pub fn remaining<T, const CAPACITY: usize>(&self, pipe: &StaticTrickyPipe<T, CAPACITY>) -> (r: usize)
        requires
            pipe.wf(),
        ensures
            r == pipe@.capacity - pipe@.messages.len(),
    {
        pipe.pipe.remaining()
    }
}

impl<T: Codec> SerRecvRef<T> {
    /// The element that the message took.
    pub closed spec fn index(self) -> u8 {
        self.message.index()
    }

    /// The message.
    pub closed spec fn message(self) -> T {
        self.message.message()
    }

    /// Serializes the message.
    pub fn to_vec(&self) -> (r: Vec<u8>)
        ensures
            r@ == T::encoding(self.message()@),
    {
        self.message.to_vec()
    }

    /// Serializes the message into the front of `buf`, and returns that part of
    /// `buf`. If it does not fit, `buf` is left as it is.
    pub fn to_slice<'a>(&self, buf: &'a mut [u8]) -> (r: Result<&'a mut [u8], PostcardError>)
        ensures
            match r {
                Ok(used) => {
                    let enc = T::encoding(self.message()@);
                    &&& enc.len() <= old(buf)@.len()
                    &&& used@ == enc
                    &&& final(buf)@ == final(used)@ + old(buf)@.skip(enc.len() as int)
                },
                Err(e) => {
                    &&& T::encoding(self.message()@).len() > old(buf)@.len()
                    &&& e == PostcardError::SerializeBufferFull
                    &&& final(buf)@ == old(buf)@
                },
            },
    {
        self.message.to_slice(buf)
    }

    /// Serializes the message, and makes a frame of it.
    pub fn to_vec_framed(&self) -> (r: Vec<u8>)
        ensures
            r@ == cobs(T::encoding(self.message()@)),
            decoding_framed::<T>(r@) == Ok::<(T::V, Seq<u8>), PostcardError>(
                (self.message()@, Seq::empty()),
            ),
            r@.len() > 0,
            forall|i: int| 0 <= i < r@.len() ==> (#[trigger] r@[i] == 0 <==> i == r@.len() - 1),
    {
        self.message.to_vec_framed()
    }

    /// Serializes the message, makes a frame of it at the front of `buf`, and
    /// returns that part of `buf`. If it does not fit, `buf` is left as it is.
    pub fn to_slice_framed<'a>(&self, buf: &'a mut [u8]) -> (r: Result<&'a mut [u8], PostcardError>)
        ensures
            match r {
                Ok(used) => {
                    let frame = cobs(T::encoding(self.message()@));
                    &&& frame.len() <= old(buf)@.len()
                    &&& used@ == frame
                    &&& final(buf)@ == final(used)@ + old(buf)@.skip(frame.len() as int)
                },
                Err(e) => {
                    &&& cobs(T::encoding(self.message()@)).len() > old(buf)@.len()
                    &&& e == PostcardError::SerializeBufferFull
                    &&& final(buf)@ == old(buf)@
                },
            },
    {
        self.message.to_slice_framed(buf)
    }

    /// Drops the message: the room that it took can be used for other messages.
    pub fn drop<const CAPACITY: usize>(self, pipe: &mut StaticTrickyPipe<T, CAPACITY>)
        requires
            old(pipe).wf(),
            old(pipe)@.reserved.contains(self.index()),
        ensures
            final(pipe).wf(),
            final(pipe)@ == old(pipe)@.release(self.index()),
    {
        self.message.drop(&mut pipe.pipe);
    }
}

impl<T> Sender<T> {
    /// Reserves room for a message, without waiting for it.
    pub fn try_reserve<const CAPACITY: usize>(&self, pipe: &mut StaticTrickyPipe<T, CAPACITY>) -> (r: Result<Permit<T>, TrySendError>)
        requires
            old(pipe).wf(),
        ensures
            final(pipe).wf(),
            match r {
                Ok(permit) => {
                    &&& !old(pipe)@.send_closed
                    &&& !old(pipe)@.full()
                    &&& !old(pipe)@.reserved.contains(permit.index())
                    &&& final(pipe)@ == old(pipe)@.reserve(permit.index())
                },
                Err(error) => refuses(old(pipe)@, error) && final(pipe)@ == old(pipe)@,
            },
    {
        match self.tx.try_reserve(&mut pipe.pipe) {
            Ok(permit) => Ok(Permit { permit }),
            Err(error) => Err(send_error(error)),
        }
    }

    /// Reserves room for a message, or returns `None` if the sender has to wait
    /// for it.
    pub fn poll_reserve<const CAPACITY: usize>(&self, pipe: &mut StaticTrickyPipe<T, CAPACITY>) -> (r: Option<Result<Permit<T>, SendError>>)
        requires
            old(pipe).wf(),
        ensures
            final(pipe).wf(),
            match r {
                Some(Ok(permit)) => {
                    &&& !old(pipe)@.send_closed
                    &&& !old(pipe)@.full()
                    &&& !old(pipe)@.reserved.contains(permit.index())
                    &&& final(pipe)@ == old(pipe)@.reserve(permit.index())
                },
                Some(Err(_)) => refuses(old(pipe)@, TrySendError::Closed(())) && final(pipe)@ == old(pipe)@,
                None => refuses(old(pipe)@, TrySendError::Full(())) && final(pipe)@ == old(pipe)@,
            },
    {
        match self.try_reserve(pipe) {
            Ok(permit) => Some(Ok(permit)),
            Err(TrySendError::Closed(_)) => Some(Err(SendError(()))),
            Err(TrySendError::Full(_)) => None,
        }
    }

    /// Sends a message, without waiting for room. If it cannot be sent, it is
    /// handed back in the error.
    pub fn try_send<const CAPACITY: usize>(&self, pipe: &mut StaticTrickyPipe<T, CAPACITY>, message: T) -> (r: Result<(), TrySendError<T>>)
        requires
            old(pipe).wf(),
        ensures
            final(pipe).wf(),
            match r {
                Ok(_) => {
                    &&& !old(pipe)@.send_closed
                    &&& !old(pipe)@.full()
                    &&& final(pipe)@ == old(pipe)@.push(message)
                },
                Err(TrySendError::Full(back)) => {
                    &&& refuses(old(pipe)@, TrySendError::Full(()))
                    &&& back == message
                    &&& final(pipe)@ == old(pipe)@
                },
                Err(TrySendError::Closed(back)) => {
                    &&& refuses(old(pipe)@, TrySendError::Closed(()))
                    &&& back == message
                    &&& final(pipe)@ == old(pipe)@
                },
            },
    {
        match self.tx.try_send(&mut pipe.pipe, message) {
            Ok(_) => Ok(()),
            Err(full_error::TrySendError::Full(message)) => Err(TrySendError::Full(message)),
            Err(full_error::TrySendError::Disconnected(message)) => Err(
                TrySendError::Closed(message),
            ),
            Err(full_error::TrySendError::Error { message, .. }) => Err(
                TrySendError::Closed(message),
            ),
        }
    }


    /// One more sender for the same channel.
    pub fn clone<const CAPACITY: usize>(&self, pipe: &mut StaticTrickyPipe<T, CAPACITY>) -> (r: Sender<T>)
        requires
            old(pipe).wf(),
            old(pipe)@.tx_count < usize::MAX / 2,
        ensures
            final(pipe).wf(),
            final(pipe)@ == old(pipe)@.add_tx(),
    {
        Sender { tx: self.tx.clone(&mut pipe.pipe) }
    }

    /// Drops the sender, and returns whether it was the last.
    pub fn drop<const CAPACITY: usize>(self, pipe: &mut StaticTrickyPipe<T, CAPACITY>) -> (r: bool)
        requires
            old(pipe).wf(),
            old(pipe)@.tx_count > 0,
        ensures
            final(pipe).wf(),
            r == (old(pipe)@.tx_count == 1),
            final(pipe)@ == old(pipe)@.drop_tx(),
    {
        self.tx.drop(&mut pipe.pipe)
    }

    /// Whether there is no message in the channel.
    #[must_use]
    pub fn is_empty<const CAPACITY: usize>(&self, pipe: &StaticTrickyPipe<T, CAPACITY>) -> (r: bool)
        requires
            pipe.wf(),
        ensures
            r == (pipe@.messages.len() == 0),
    {
        pipe.pipe.is_empty()
    }

    /// Whether the channel holds as many messages as it can.
    #[must_use]
    pub fn is_full<const CAPACITY: usize>(&self, pipe: &StaticTrickyPipe<T, CAPACITY>) -> (r: bool)
        requires
            pipe.wf(),
        ensures
            r == (pipe@.messages.len() == pipe@.capacity),
    {
        pipe.pipe.is_full()
    }

    /// The number of messages in the channel.
    #[must_use]
    pub fn len<const CAPACITY: usize>(&self, pipe: &StaticTrickyPipe<T, CAPACITY>) -> (r: usize)
        requires
            pipe.wf(),
        ensures
            r == pipe@.messages.len(),
    {
        pipe.pipe.len()
    }

    /// The number of messages that the channel can hold.
    #[must_use]
    pub fn capacity<const CAPACITY: usize>(&self, pipe: &StaticTrickyPipe<T, CAPACITY>) -> (r: usize)
        ensures
            r == pipe@.capacity,
    {
        pipe.pipe.capacity()
    }

    /// The capacity less the number of messages in the channel.
    #[must_use]
    pub fn remaining<const CAPACITY: usize>(&self, pipe: &StaticTrickyPipe<T, CAPACITY>) -> (r: usize)
        requires
            pipe.wf(),
        ensures
            r == pipe@.capacity - pipe@.messages.len(),
    {
        pipe.pipe.remaining()
    }
}

impl<T> Permit<T> {
    /// The element that is reserved.
    pub closed spec fn index(self) -> u8 {
        self.permit.index()
    }

    /// Sends a message. It is sent even if the receiver is gone.
    pub fn send<const CAPACITY: usize>(self, pipe: &mut StaticTrickyPipe<T, CAPACITY>, message: T)
        requires
            old(pipe).wf(),
            old(pipe)@.reserved.contains(self.index()),
        ensures
            final(pipe).wf(),
            final(pipe)@ == old(pipe)@.release(self.index()).push(message),
    {
        self.permit.send(&mut pipe.pipe, message);
    }

    /// Drops the permit: the room can be used for other messages.
    pub fn drop<const CAPACITY: usize>(self, pipe: &mut StaticTrickyPipe<T, CAPACITY>)
        requires
            old(pipe).wf(),
            old(pipe)@.reserved.contains(self.index()),
        ensures
            final(pipe).wf(),
            final(pipe)@ == old(pipe)@.release(self.index()),
    {
        self.permit.drop(&mut pipe.pipe);
    }
}

impl DeserSender {
    /// What is known of the type of the messages.
    pub closed spec fn info(self) -> TypeInfo {
        self.tx.info()
    }

    /// Reserves room for a message, without waiting for it.
    pub fn try_reserve<T: Codec, const CAPACITY: usize>(&self, pipe: &mut StaticTrickyPipe<T, CAPACITY>) -> (r: Result<SerPermit<T>, TrySendError>)
        requires
            old(pipe).wf(),
        ensures
            final(pipe).wf(),
            match r {
                Ok(permit) => {
                    &&& !old(pipe)@.send_closed
                    &&& !old(pipe)@.full()
                    &&& !old(pipe)@.reserved.contains(permit.index())
                    &&& final(pipe)@ == old(pipe)@.reserve(permit.index())
                },
                Err(error) => refuses(old(pipe)@, error) && final(pipe)@ == old(pipe)@,
            },
    {
        match self.tx.try_reserve(&mut pipe.pipe) {
            Ok(permit) => Ok(SerPermit { permit }),
            Err(error) => Err(send_error(error)),
        }
    }

    /// Sends the message that `bytes` stands for, without waiting for room. That
    /// there is none comes before that the bytes stand for no message.
    pub fn try_send<T: Codec, const CAPACITY: usize>(&self, pipe: &mut StaticTrickyPipe<T, CAPACITY>, bytes: &[u8]) -> (r: Result<(), SerTrySendError>)
        requires
            old(pipe).wf(),
        ensures
            final(pipe).wf(),
            match r {
                Ok(_) => {
                    &&& !old(pipe)@.send_closed
                    &&& !old(pipe)@.full()
                    &&& T::decoding(bytes@) matches Ok(decoded)
                    &&& exists|message: T| #[trigger]
                        message@ == decoded.0 && final(pipe)@ == old(pipe)@.push(message)
                },
                Err(SerTrySendError::Deserialize(e)) => {
                    &&& !old(pipe)@.send_closed
                    &&& !old(pipe)@.full()
                    &&& T::decoding(bytes@) == Err::<(T::V, Seq<u8>), PostcardError>(e)
                    &&& final(pipe)@ == old(pipe)@
                },
                Err(SerTrySendError::Send(error)) => {
                    &&& refuses(old(pipe)@, error)
                    &&& final(pipe)@ == old(pipe)@
                },
            },
    {
        match self.try_reserve::<T, CAPACITY>(pipe) {
            Ok(permit) => {
                let ghost idx = permit.index();
                assert(old(pipe)@.reserved.insert(idx).remove(idx) =~= old(pipe)@.reserved);
                match permit.send(pipe, bytes) {
                    Ok(()) => Ok(()),
                    Err(e) => Err(SerTrySendError::Deserialize(e)),
                }
            },
            Err(error) => Err(SerTrySendError::Send(error)),
        }
    }

    /// Sends the message that the frame `bytes` stands for, without waiting for
    /// room. That there is none comes before that the frame stands for no message.
    pub fn try_send_framed<T: Codec, const CAPACITY: usize>(&self, pipe: &mut StaticTrickyPipe<T, CAPACITY>, bytes: &[u8]) -> (r: Result<(), SerTrySendError>)
        requires
            old(pipe).wf(),
        ensures
            final(pipe).wf(),
            match r {
                Ok(_) => {
                    &&& !old(pipe)@.send_closed
                    &&& !old(pipe)@.full()
                    &&& decoding_framed::<T>(bytes@) matches Ok(decoded)
                    &&& exists|message: T| #[trigger]
                        message@ == decoded.0 && final(pipe)@ == old(pipe)@.push(message)
                },
                Err(SerTrySendError::Deserialize(e)) => {
                    &&& !old(pipe)@.send_closed
                    &&& !old(pipe)@.full()
                    &&& decoding_framed::<T>(bytes@) == Err::<(T::V, Seq<u8>), PostcardError>(e)
                    &&& final(pipe)@ == old(pipe)@
                },
                Err(SerTrySendError::Send(error)) => {
                    &&& refuses(old(pipe)@, error)
                    &&& final(pipe)@ == old(pipe)@
                },
            },
    {
        match self.try_reserve::<T, CAPACITY>(pipe) {
            Ok(permit) => {
                let ghost idx = permit.index();
                assert(old(pipe)@.reserved.insert(idx).remove(idx) =~= old(pipe)@.reserved);
                match permit.send_framed(pipe, bytes) {
                    Ok(()) => Ok(()),
                    Err(e) => Err(SerTrySendError::Deserialize(e)),
                }
            },
            Err(error) => Err(SerTrySendError::Send(error)),
        }
    }

    /// Sends the message that `bytes` stands for, or returns `None` if the sender
    /// has to wait for room.
    pub fn poll_send<T: Codec, const CAPACITY: usize>(&self, pipe: &mut StaticTrickyPipe<T, CAPACITY>, bytes: &[u8]) -> (r: Option<Result<(), SerSendError>>)
        requires
            old(pipe).wf(),
        ensures
            final(pipe).wf(),
            match r {
                Some(Ok(_)) => {
                    &&& !old(pipe)@.send_closed
                    &&& !old(pipe)@.full()
                    &&& T::decoding(bytes@) matches Ok(decoded)
                    &&& exists|message: T| #[trigger]
                        message@ == decoded.0 && final(pipe)@ == old(pipe)@.push(message)
                },
                Some(Err(SerSendError::Deserialize(e))) => {
                    &&& !old(pipe)@.send_closed
                    &&& !old(pipe)@.full()
                    &&& T::decoding(bytes@) == Err::<(T::V, Seq<u8>), PostcardError>(e)
                    &&& final(pipe)@ == old(pipe)@
                },
                Some(Err(SerSendError::Closed)) => {
                    &&& refuses(old(pipe)@, TrySendError::Closed(()))
                    &&& final(pipe)@ == old(pipe)@
                },
                None => refuses(old(pipe)@, TrySendError::Full(())) && final(pipe)@ == old(pipe)@,
            },
    {
        match self.try_send::<T, CAPACITY>(pipe, bytes) {
            Ok(_) => Some(Ok(())),
            Err(SerTrySendError::Deserialize(e)) => Some(Err(SerSendError::Deserialize(e))),
            Err(SerTrySendError::Send(TrySendError::Closed(_))) => Some(Err(SerSendError::Closed)),
            Err(SerTrySendError::Send(TrySendError::Full(_))) => None,
        }
    }

    /// Sends the message that the frame `bytes` stands for, or returns `None` if
    /// the sender has to wait for room.
    pub fn poll_send_framed<T: Codec, const CAPACITY: usize>(&self, pipe: &mut StaticTrickyPipe<T, CAPACITY>, bytes: &[u8]) -> (r: Option<Result<(), SerSendError>>)
        requires
            old(pipe).wf(),
        ensures
            final(pipe).wf(),
            match r {
                Some(Ok(_)) => {
                    &&& !old(pipe)@.send_closed
                    &&& !old(pipe)@.full()
                    &&& decoding_framed::<T>(bytes@) matches Ok(decoded)
                    &&& exists|message: T| #[trigger]
                        message@ == decoded.0 && final(pipe)@ == old(pipe)@.push(message)
                },
                Some(Err(SerSendError::Deserialize(e))) => {
                    &&& !old(pipe)@.send_closed
                    &&& !old(pipe)@.full()
                    &&& decoding_framed::<T>(bytes@) == Err::<(T::V, Seq<u8>), PostcardError>(e)
                    &&& final(pipe)@ == old(pipe)@
                },
                Some(Err(SerSendError::Closed)) => {
                    &&& refuses(old(pipe)@, TrySendError::Closed(()))
                    &&& final(pipe)@ == old(pipe)@
                },
                None => refuses(old(pipe)@, TrySendError::Full(())) && final(pipe)@ == old(pipe)@,
            },
    {
        match self.try_send_framed::<T, CAPACITY>(pipe, bytes) {
            Ok(_) => Some(Ok(())),
            Err(SerTrySendError::Deserialize(e)) => Some(Err(SerSendError::Deserialize(e))),
            Err(SerTrySendError::Send(TrySendError::Closed(_))) => Some(Err(SerSendError::Closed)),
            Err(SerTrySendError::Send(TrySendError::Full(_))) => None,
        }
    }

    /// One more sender for the same channel.
    pub fn clone<T, const CAPACITY: usize>(&self, pipe: &mut StaticTrickyPipe<T, CAPACITY>) -> (r: DeserSender)
        requires
            old(pipe).wf(),
            old(pipe)@.tx_count < usize::MAX / 2,
        ensures
            final(pipe).wf(),
            final(pipe)@ == old(pipe)@.add_tx(),
            r.info() == self.info(),
    {
        DeserSender { tx: self.tx.clone(&mut pipe.pipe) }
    }

    /// Drops the sender, and returns whether it was the last.
    pub fn drop<T, const CAPACITY: usize>(self, pipe: &mut StaticTrickyPipe<T, CAPACITY>) -> (r: bool)
        requires
            old(pipe).wf(),
            old(pipe)@.tx_count > 0,
        ensures
            final(pipe).wf(),
            r == (old(pipe)@.tx_count == 1),
            final(pipe)@ == old(pipe)@.drop_tx(),
    {
        self.tx.drop(&mut pipe.pipe)
    }

    /// Whether there is no message in the channel.
    #[must_use]
    pub fn is_empty<T, const CAPACITY: usize>(&self, pipe: &StaticTrickyPipe<T, CAPACITY>) -> (r: bool)
        requires
            pipe.wf(),
        ensures
            r == (pipe@.messages.len() == 0),
    {
        pipe.pipe.is_empty()
    }

    /// Whether the channel holds as many messages as it can.
    #[must_use]
    pub fn is_full<T, const CAPACITY: usize>(&self, pipe: &StaticTrickyPipe<T, CAPACITY>) -> (r: bool)
        requires
            pipe.wf(),
        ensures
            r == (pipe@.messages.len() == pipe@.capacity),
    {
        pipe.pipe.is_full()
    }

    /// The number of messages in the channel.
    #[must_use]
    pub fn len<T, const CAPACITY: usize>(&self, pipe: &StaticTrickyPipe<T, CAPACITY>) -> (r: usize)
        requires
            pipe.wf(),
        ensures
            r == pipe@.messages.len(),
    {
        pipe.pipe.len()
    }

    /// The number of messages that the channel can hold.
    #[must_use]
    pub fn capacity<T, const CAPACITY: usize>(&self, pipe: &StaticTrickyPipe<T, CAPACITY>) -> (r: usize)
        ensures
            r == pipe@.capacity,
    {
        pipe.pipe.capacity()
    }

    /// The capacity less the number of messages in the channel.
    #[must_use]
    pub fn remaining<T, const CAPACITY: usize>(&self, pipe: &StaticTrickyPipe<T, CAPACITY>) -> (r: usize)
        requires
            pipe.wf(),
        ensures
            r == pipe@.capacity - pipe@.messages.len(),
    {
        pipe.pipe.remaining()
    }
}

impl<T: Codec> SerPermit<T> {
    /// The element that is reserved.
    pub closed spec fn index(self) -> u8 {
        self.permit.index()
    }

    /// Sends the message that `bytes` stands for. If they stand for none, the
    /// room can be used for other messages.
    pub fn send<const CAPACITY: usize>(self, pipe: &mut StaticTrickyPipe<T, CAPACITY>, bytes: &[u8]) -> (r: Result<(), PostcardError>)
        requires
            old(pipe).wf(),
            old(pipe)@.reserved.contains(self.index()),
        ensures
            final(pipe).wf(),
            match r {
                Ok(_) => {
                    &&& T::decoding(bytes@) matches Ok(decoded)
                    &&& exists|message: T| #[trigger]
                        message@ == decoded.0 && final(pipe)@ == old(pipe)@.release(
                            self.index(),
                        ).push(message)
                },
                Err(e) => {
                    &&& T::decoding(bytes@) == Err::<(T::V, Seq<u8>), PostcardError>(e)
                    &&& final(pipe)@ == old(pipe)@.release(self.index())
                },
            },
    {
        self.permit.send(&mut pipe.pipe, bytes)
    }

    /// Sends the message that the frame `bytes` stands for. If it stands for none,
    /// the room can be used for other messages.
    pub fn send_framed<const CAPACITY: usize>(self, pipe: &mut StaticTrickyPipe<T, CAPACITY>, bytes: &[u8]) -> (r: Result<(), PostcardError>)
        requires
            old(pipe).wf(),
            old(pipe)@.reserved.contains(self.index()),
        ensures
            final(pipe).wf(),
            match r {
                Ok(_) => {
                    &&& decoding_framed::<T>(bytes@) matches Ok(decoded)
                    &&& exists|message: T| #[trigger]
                        message@ == decoded.0 && final(pipe)@ == old(pipe)@.release(
                            self.index(),
                        ).push(message)
                },
                Err(e) => {
                    &&& decoding_framed::<T>(bytes@) == Err::<(T::V, Seq<u8>), PostcardError>(e)
                    &&& final(pipe)@ == old(pipe)@.release(self.index())
                },
            },
    {
        self.permit.send_framed(&mut pipe.pipe, bytes)
    }

    /// Drops the permit: the room can be used for other messages.
    pub fn drop<const CAPACITY: usize>(self, pipe: &mut StaticTrickyPipe<T, CAPACITY>)
        requires
            old(pipe).wf(),
            old(pipe)@.reserved.contains(self.index()),
        ensures
            final(pipe).wf(),
            final(pipe)@ == old(pipe)@.release(self.index()),
    {
        self.permit.drop(&mut pipe.pipe);
    }
}

/// A sender is refused as closed exactly when the receiver is gone, and for want of room
/// exactly when it is not, but every element holds a message or is reserved. The receiver
/// is told that there is nothing yet, or nothing ever, only when there is no message, as
/// there are senders or not.
pub proof fn ends_are_told_why<T>(pipe: PipeView<T, ()>)
    ensures
        refuses(pipe, TrySendError::Closed(())) <==> pipe.send_closed,
        refuses(pipe, TrySendError::Full(())) <==> !pipe.send_closed && pipe.messages.len() + pipe.reserved.len()
            == pipe.capacity,
        starves(pipe, TryRecvError::Empty) <==> pipe.messages.len() == 0 && !pipe.recv_closed,
        starves(pipe, TryRecvError::Closed) <==> pipe.messages.len() == 0 && pipe.recv_closed,
{
}

} // verus!
