//! One-shot channels, which can be used again.
//!
//! A one-shot channel holds at most one message. Its receiver hands out senders,
//! each of which sends a single message; only one unused sender exists at a time.
//! When its message was received, or when it was dropped, there can be another.
//!
//! The storage of the channel is passed to each call of its handles.
use crate::codec::{decoding_framed, from_bytes, from_bytes_framed, Codec, PostcardError};
use crate::tricky_pipe::typeinfo::{id_of, TypeInfo};
use core::marker::PhantomData;
use vstd::prelude::*;

verus! {

/// The receiver has been made.
pub const HAS_RX: u8 = 1;

/// A sender has been made.
pub const HAS_TX: u8 = 2;

/// The receiver is waiting for a message.
pub const RX_WAITING: u8 = 4;

/// A message has been sent.
pub const SENT: u8 = 8;

/// The channel has been closed.
pub const CLOSED: u8 = 16;

/// Storage used by both ends of a one-shot channel.
pub struct Oneshot<T> {
    state: u8,
    cell: Option<T>,
}

/// Hands out senders, and receives their messages.
#[must_use]
pub struct Receiver<T> {
    marker: PhantomData<T>,
}

/// Sends a single message.
#[must_use]
pub struct Sender<T> {
    marker: PhantomData<T>,
}

/// Sends a single message that is given as serialized bytes.
#[must_use]
pub struct DeserSender<T> {
    info: TypeInfo,
    marker: PhantomData<T>,
}

/// Why a message could not be received.
#[derive(Debug, PartialEq, Eq, Structural, Clone, Copy)]
pub enum RecvError {
    /// There is no sender, so no message will come.
    NoSender,
    /// The receiver has closed the channel.
    Closed,
}

/// Why a sender could not be made.
#[derive(Debug, PartialEq, Eq, Structural, Clone, Copy)]
pub enum SenderError {
    /// There is an unused sender.
    SenderAlreadyActive,
    /// The receiver has closed the channel.
    Closed,
}

/// The receiver has closed the channel, so a message could not be sent. It is
/// handed back.
#[derive(Debug, PartialEq, Eq)]
pub struct Closed<T>(pub T);

/// Why a message that was given as serialized bytes could not be sent.
#[derive(Debug, PartialEq, Eq)]
pub enum DeserSendError {
    /// The bytes do not stand for a message.
    Deserialize {
        /// What is wrong with the bytes.
        error: PostcardError,
        /// The type of the messages of the channel.
        message_type: &'static str,
    },
    /// The receiver has closed the channel.
    Closed,
}

/// The state of a one-shot channel.
pub struct OneshotView<T> {
    /// Whether the receiver has been made.
    pub has_rx: bool,
    /// Whether there is a sender that has not been used.
    pub has_tx: bool,
    /// Whether the receiver is waiting.
    pub waiting: bool,
    /// The message that was sent and not received yet.
    pub message: Option<T>,
    /// Whether the channel has been closed.
    pub closed: bool,
}

impl<T> OneshotView<T> {
    /// A channel without a receiver.
    pub open spec fn unclaimed() -> OneshotView<T> {
        OneshotView { has_rx: false, has_tx: false, waiting: false, message: None, closed: false }
    }

    /// A channel with a receiver, on which nothing happened yet.
    pub open spec fn idle() -> OneshotView<T> {
        OneshotView { has_rx: true, ..OneshotView::unclaimed() }
    }

    /// A channel with an unused sender.
    pub open spec fn armed() -> OneshotView<T> {
        OneshotView { has_tx: true, ..OneshotView::idle() }
    }

    /// A channel that was closed.
    pub open spec fn shut() -> OneshotView<T> {
        OneshotView { closed: true, ..OneshotView::unclaimed() }
    }

    /// Only a channel with a receiver has senders and messages; a message and an
    /// unused sender do not go together; and when the channel is closed, there is
    /// neither.
    pub open spec fn valid(self) -> bool {
        &&& self.has_tx ==> self.has_rx && self.message is None
        &&& self.message is Some ==> self.has_rx
        &&& self.closed ==> !self.has_rx && !self.has_tx && self.message is None
    }

    /// Whether the receiver is there: it stays there when it closes the channel.
    pub open spec fn received_by(self) -> bool {
        self.has_rx || self.closed
    }

    /// Whether a sender that was made and not used is there: it is there still
    /// when the channel was closed.
    pub open spec fn sent_by(self) -> bool {
        self.has_tx || self.closed
    }

    /// The channel after its receiver looked for a message.
    pub open spec fn after_recv(self) -> OneshotView<T> {
        if self.message is Some {
            OneshotView::idle()
        } else {
            OneshotView { waiting: true, ..self }
        }
    }

    /// The channel after a sender was asked for.
    pub open spec fn after_sender(self) -> OneshotView<T> {
        if self.closed || self.has_tx {
            self
        } else {
            OneshotView::armed()
        }
    }

    /// The channel after a sender sent `message`.
    pub open spec fn after_send(self, message: T) -> OneshotView<T> {
        if self.closed {
            self
        } else {
            OneshotView { has_tx: false, message: Some(message), ..self }
        }
    }

    /// The channel after a sender was dropped.
    pub open spec fn after_drop(self) -> OneshotView<T> {
        OneshotView { has_tx: false, ..self }
    }
}

proof fn lemma_bits(s: u8)
    ensures
        0u8 & HAS_RX == 0 && 0u8 & HAS_TX == 0 && 0u8 & RX_WAITING == 0 && 0u8 & SENT == 0 && 0u8
            & CLOSED == 0,
        HAS_RX & HAS_RX != 0 && HAS_RX & HAS_TX == 0 && HAS_RX & RX_WAITING == 0 && HAS_RX & SENT
            == 0 && HAS_RX & CLOSED == 0,
        (HAS_RX | HAS_TX) & HAS_RX != 0 && (HAS_RX | HAS_TX) & HAS_TX != 0 && (HAS_RX | HAS_TX)
            & RX_WAITING == 0 && (HAS_RX | HAS_TX) & SENT == 0 && (HAS_RX | HAS_TX) & CLOSED == 0,
        CLOSED & HAS_RX == 0 && CLOSED & HAS_TX == 0 && CLOSED & RX_WAITING == 0 && CLOSED & SENT
            == 0 && CLOSED & CLOSED != 0,
        ((s | RX_WAITING) & HAS_RX) == (s & HAS_RX) && ((s | RX_WAITING) & HAS_TX) == (s & HAS_TX)
            && (s | RX_WAITING) & RX_WAITING != 0 && ((s | RX_WAITING) & SENT) == (s & SENT) && ((s
            | RX_WAITING) & CLOSED) == (s & CLOSED),
        ((s | SENT) & HAS_RX) == (s & HAS_RX) && ((s | SENT) & HAS_TX) == (s & HAS_TX) && ((s
            | SENT) & RX_WAITING) == (s & RX_WAITING) && (s | SENT) & SENT != 0 && ((s | SENT)
            & CLOSED) == (s & CLOSED),
        ((s & !HAS_TX) & HAS_RX) == (s & HAS_RX) && (s & !HAS_TX) & HAS_TX == 0 && ((s & !HAS_TX)
            & RX_WAITING) == (s & RX_WAITING) && ((s & !HAS_TX) & SENT) == (s & SENT) && ((s
            & !HAS_TX) & CLOSED) == (s & CLOSED),
        s & HAS_RX == 0 && s & HAS_TX == 0 && s & RX_WAITING == 0 && s & SENT == 0 && s & CLOSED
            == 0 && s < 32 ==> s == 0,
        s < 32 ==> (s | RX_WAITING) < 32 && (s | SENT) < 32 && (s & !HAS_TX) < 32,
        (HAS_RX | HAS_TX) == 3,
{
    assert(0u8 & 1 == 0 && 0u8 & 2 == 0 && 0u8 & 4 == 0 && 0u8 & 8 == 0 && 0u8 & 16 == 0 && 1u8 & 1
        != 0 && 1u8 & 2 == 0 && 1u8 & 4 == 0 && 1u8 & 8 == 0 && 1u8 & 16 == 0 && (1u8 | 2u8) & 1
        != 0 && (1u8 | 2u8) & 2 != 0 && (1u8 | 2u8) & 4 == 0 && (1u8 | 2u8) & 8 == 0 && (1u8 | 2u8)
        & 16 == 0 && 16u8 & 1 == 0 && 16u8 & 2 == 0 && 16u8 & 4 == 0 && 16u8 & 8 == 0 && 16u8 & 16
        != 0 && ((s | 4) & 1) == (s & 1) && ((s | 4) & 2) == (s & 2) && (s | 4) & 4 != 0 && ((s | 4)
        & 8) == (s & 8) && ((s | 4) & 16) == (s & 16) && ((s | 8) & 1) == (s & 1) && ((s | 8) & 2)
        == (s & 2) && ((s | 8) & 4) == (s & 4) && (s | 8) & 8 != 0 && ((s | 8) & 16) == (s & 16)
        && ((s & !2u8) & 1) == (s & 1) && (s & !2u8) & 2 == 0 && ((s & !2u8) & 4) == (s & 4) && ((s
        & !2u8) & 8) == (s & 8) && ((s & !2u8) & 16) == (s & 16) && (s & 1 == 0 && s & 2 == 0 && s
        & 4 == 0 && s & 8 == 0 && s & 16 == 0 && s < 32 ==> s == 0) && (s < 32 ==> (s | 4) < 32 && (
    s | 8) < 32 && (s & !2u8) < 32) && (1u8 | 2u8) == 3) by (bit_vector);
}

impl<T> View for Oneshot<T> {
    type V = OneshotView<T>;

    closed spec fn view(&self) -> OneshotView<T> {
        OneshotView {
            has_rx: self.state & HAS_RX != 0,
            has_tx: self.state & HAS_TX != 0 && self.state & SENT == 0 && self.state & CLOSED == 0,
            waiting: self.state & RX_WAITING != 0,
            message: self.cell,
            closed: self.state & CLOSED != 0,
        }
    }
}

impl<T> Oneshot<T> {
    /// The cell holds a message when one has been sent, unless the channel is
    /// closed.
    pub closed spec fn wf(self) -> bool {
        &&& self.cell is Some <==> self.state & SENT != 0 && self.state & CLOSED == 0
        &&& self.state < 32
        &&& self@.valid()
    }

    /// A channel in order is in a valid state.
    pub proof fn lemma_valid(self)
        requires
            self.wf(),
        ensures
            self@.valid(),
    {
    }

    /// A channel without a receiver.
    pub fn new() -> (r: Oneshot<T>)
        ensures
            r.wf(),
            r@ == OneshotView::<T>::unclaimed(),
    {
        proof {
            lemma_bits(0);
        }
        Oneshot { state: 0, cell: None }
    }

    /// The receiver of the channel, the first time it is asked for.
    pub fn static_receiver(&mut self) -> (r: Option<Receiver<T>>)
        requires
            old(self).wf(),
        ensures
            final(self).wf(),
            r is Some <==> old(self)@ == OneshotView::<T>::unclaimed(),
            final(self)@ == if r is Some {
                OneshotView::<T>::idle()
            } else {
                old(self)@
            },
    {
        proof {
            lemma_bits(self.state);
        }
        if self.state == 0 {
            self.state = HAS_RX;
            Some(Receiver { marker: PhantomData })
        } else {
            None
        }
    }

    /// Whether the receiver is waiting, and is to be woken when a message was
    /// sent or the sender was dropped.
    pub fn is_waiting(&self) -> (r: bool)
        ensures
            r == self@.waiting,
    {
        self.state & RX_WAITING != 0
    }

    /// Marks the channel as closed, and drops the message in it.
    fn close(&mut self)
        requires
            old(self).wf(),
        ensures
            final(self).wf(),
            final(self)@ == OneshotView::<T>::shut(),
    {
        proof {
            lemma_bits(self.state);
        }
        self.state = CLOSED;
        self.cell = None;
    }

    /// Puts a message into the channel. If the channel was closed, the message is
    /// handed back.
    fn finish_write(&mut self, item: T) -> (r: Result<(), Closed<T>>)
        requires
            old(self).wf(),
            old(self)@.sent_by(),
        ensures
            final(self).wf(),
            final(self)@ == old(self)@.after_send(item),
            r == if old(self)@.closed {
                Err::<(), Closed<T>>(Closed(item))
            } else {
                Ok(())
            },
    {
        proof {
            lemma_bits(self.state);
        }
        let state: u8 = self.state;
        self.state = state | SENT;
        if state & CLOSED != 0 {
            return Err(Closed(item));
        }
        self.cell = Some(item);
        Ok(())
    }

    /// Takes note that a sender is gone that was not used.
    fn drop_tx(&mut self)
        requires
            old(self).wf(),
            old(self)@.sent_by(),
        ensures
            final(self).wf(),
            final(self)@ == old(self)@.after_drop(),
    {
        proof {
            lemma_bits(self.state);
        }
        self.state = self.state & !HAS_TX;
    }

    /// Takes note that a sender is to be made. A message that was sent and not
    /// received is dropped.
    fn take_sender(&mut self) -> (r: Result<(), SenderError>)
        requires
            old(self).wf(),
            old(self)@.received_by(),
        ensures
            final(self).wf(),
            final(self)@ == old(self)@.after_sender(),
            r == if old(self)@.closed {
                Err::<(), SenderError>(SenderError::Closed)
            } else if old(self)@.has_tx {
                Err(SenderError::SenderAlreadyActive)
            } else {
                Ok(())
            },
    {
        proof {
            lemma_bits(self.state);
        }
        if self.state & CLOSED != 0 {
            return Err(SenderError::Closed);
        }
        if self.state & SENT != 0 {
            self.cell = None;
        } else if self.state & HAS_TX != 0 {
            return Err(SenderError::SenderAlreadyActive);
        }
        self.state = HAS_RX | HAS_TX;
        Ok(())
    }
}

impl<T> Receiver<T> {
    /// A receiver, and the channel that it belongs to.
    pub fn new() -> (r: (Receiver<T>, Oneshot<T>))
        ensures
            r.1.wf(),
            r.1@ == OneshotView::<T>::idle(),
    {
        proof {
            lemma_bits(0);
        }
        (Receiver { marker: PhantomData }, Oneshot { state: HAS_RX, cell: None })
    }

    /// Makes a sender, unless there is one that was not used, or the channel was
    /// closed. A message that was sent and not received is dropped.
    pub fn sender(&self, chan: &mut Oneshot<T>) -> (r: Result<Sender<T>, SenderError>)
        requires
            old(chan).wf(),
            old(chan)@.received_by(),
        ensures
            final(chan).wf(),
            final(chan)@ == old(chan)@.after_sender(),
            match r {
                Ok(_) => !old(chan)@.closed && !old(chan)@.has_tx,
                Err(SenderError::Closed) => old(chan)@.closed,
                Err(SenderError::SenderAlreadyActive) => !old(chan)@.closed && old(chan)@.has_tx,
            },
    {
        match chan.take_sender() {
            Ok(_) => Ok(Sender { marker: PhantomData }),
            Err(e) => Err(e),
        }
    }

    /// Makes a sender of serialized messages, unless there is one that was not
    /// used, or the channel was closed. A message that was sent and not received
    /// is dropped. The type of the messages is described as `name`.
    pub fn deser_sender(&self, chan: &mut Oneshot<T>, name: &'static str) -> (r: Result<
        DeserSender<T>,
        SenderError,
    >) where T: 'static
        requires
            old(chan).wf(),
            old(chan)@.received_by(),
        ensures
            final(chan).wf(),
            final(chan)@ == old(chan)@.after_sender(),
            match r {
                Ok(tx) => {
                    &&& !old(chan)@.closed
                    &&& !old(chan)@.has_tx
                    &&& tx.info().spec_id() == id_of::<T>()
                    &&& tx.info().spec_name() == name@
                },
                Err(SenderError::Closed) => old(chan)@.closed,
                Err(SenderError::SenderAlreadyActive) => !old(chan)@.closed && old(chan)@.has_tx,
            },
    {
        match chan.take_sender() {
            Ok(_) => Ok(DeserSender { info: TypeInfo::of::<T>(name), marker: PhantomData }),
            Err(e) => Err(e),
        }
    }

    /// Receives a message, or returns `None` if the receiver has to wait for it.
    pub fn poll_recv(&self, chan: &mut Oneshot<T>) -> (r: Option<Result<T, RecvError>>)
        requires
            old(chan).wf(),
            old(chan)@.received_by(),
        ensures
            final(chan).wf(),
            final(chan)@ == old(chan)@.after_recv(),
            r == if old(chan)@.closed {
                Some(Err::<T, RecvError>(RecvError::Closed))
            } else {
                match old(chan)@.message {
                    Some(message) => Some(Ok(message)),
                    None => if old(chan)@.has_tx {
                        None
                    } else {
                        Some(Err(RecvError::NoSender))
                    },
                }
            },
    {
        let state: u8 = chan.state;
        proof {
            lemma_bits(state);
        }
        chan.state = state | RX_WAITING;
        if state & CLOSED != 0 {
            return Some(Err(RecvError::Closed));
        }
        if let Some(message) = chan.cell.take() {
            chan.state = HAS_RX;
            return Some(Ok(message));
        }
        if state & HAS_TX == 0 {
            return Some(Err(RecvError::NoSender));
        }
        // We are still waiting for the sender.
        None
    }

    /// Closes the channel. The message in it is dropped, and the sender will fail.
    pub fn close(&self, chan: &mut Oneshot<T>)
        requires
            old(chan).wf(),
            old(chan)@.received_by(),
        ensures
            final(chan).wf(),
            final(chan)@ == OneshotView::<T>::shut(),
    {
        chan.close();
    }
}

impl<T> Sender<T> {
    /// Sends a message. If the channel was closed, the message is handed back.
    pub fn send(self, chan: &mut Oneshot<T>, item: T) -> (r: Result<(), Closed<T>>)
        requires
            old(chan).wf(),
            old(chan)@.sent_by(),
        ensures
            final(chan).wf(),
            final(chan)@ == old(chan)@.after_send(item),
            r == if old(chan)@.closed {
                Err::<(), Closed<T>>(Closed(item))
            } else {
                Ok(())
            },
    {
        match chan.finish_write(item) {
            Ok(_) => Ok(()),
            Err(e) => {
                self.drop(chan);
                Err(e)
            },
        }
    }

    /// Drops the sender without a message.
    pub fn drop(self, chan: &mut Oneshot<T>)
        requires
            old(chan).wf(),
            old(chan)@.sent_by(),
        ensures
            final(chan).wf(),
            final(chan)@ == old(chan)@.after_drop(),
    {
        chan.drop_tx();
    }
}

impl<T> DeserSender<T> {
    /// What is known of the type of the messages.
    pub closed spec fn info(self) -> TypeInfo {
        self.info
    }

    /// Sends a message that was decoded outside, or reports that it could not be
    /// decoded.
    pub fn send_decoded(self, chan: &mut Oneshot<T>, decoded: Result<T, PostcardError>) -> (r:
        Result<(), DeserSendError>)
        requires
            old(chan).wf(),
            old(chan)@.sent_by(),
        ensures
            final(chan).wf(),
            match decoded {
                Ok(message) => {
                    &&& final(chan)@ == old(chan)@.after_send(message)
                    &&& r == if old(chan)@.closed {
                        Err::<(), DeserSendError>(DeserSendError::Closed)
                    } else {
                        Ok(())
                    }
                },
                Err(e) => {
                    &&& final(chan)@ == old(chan)@.after_drop()
                    &&& r matches Err(DeserSendError::Deserialize { error, message_type })
                    &&& error == e
                    &&& message_type@ == self.info().spec_name()
                },
            },
    {
        match decoded {
            Ok(message) => match chan.finish_write(message) {
                Ok(_) => Ok(()),
                Err(_) => {
                    self.drop(chan);
                    Err(DeserSendError::Closed)
                },
            },
            Err(error) => {
                let message_type = self.info.name();
                self.drop(chan);
                Err(DeserSendError::Deserialize { error, message_type })
            },
        }
    }

    /// Drops the sender without a message.
    pub fn drop(self, chan: &mut Oneshot<T>)
        requires
            old(chan).wf(),
            old(chan)@.sent_by(),
        ensures
            final(chan).wf(),
            final(chan)@ == old(chan)@.after_drop(),
    {
        chan.drop_tx();
    }
}

impl<T: Codec> DeserSender<T> {
    /// Sends the message that `bytes` stands for.
    pub fn send(self, chan: &mut Oneshot<T>, bytes: &[u8]) -> (r: Result<(), DeserSendError>)
        requires
            old(chan).wf(),
            old(chan)@.sent_by(),
        ensures
            final(chan).wf(),
            match T::decoding(bytes@) {
                Ok((value, rest)) => {
                    &&& exists|message: T| #[trigger]
                        message@ == value && final(chan)@ == old(chan)@.after_send(message)
                    &&& r == if old(chan)@.closed {
                        Err::<(), DeserSendError>(DeserSendError::Closed)
                    } else {
                        Ok(())
                    }
                },
                Err(e) => {
                    &&& final(chan)@ == old(chan)@.after_drop()
                    &&& r matches Err(DeserSendError::Deserialize { error, message_type })
                    &&& error == e
                    &&& message_type@ == self.info().spec_name()
                },
            },
    {
        let decoded = from_bytes::<T>(bytes);
        self.send_decoded(chan, decoded)
    }

    /// Sends the message that the frame `bytes` stands for.
    pub fn send_framed(self, chan: &mut Oneshot<T>, bytes: &[u8]) -> (r: Result<(), DeserSendError>)
        requires
            old(chan).wf(),
            old(chan)@.sent_by(),
        ensures
            final(chan).wf(),
            match decoding_framed::<T>(bytes@) {
                Ok((value, rest)) => {
                    &&& exists|message: T| #[trigger]
                        message@ == value && final(chan)@ == old(chan)@.after_send(message)
                    &&& r == if old(chan)@.closed {
                        Err::<(), DeserSendError>(DeserSendError::Closed)
                    } else {
                        Ok(())
                    }
                },
                Err(e) => {
                    &&& final(chan)@ == old(chan)@.after_drop()
                    &&& r matches Err(DeserSendError::Deserialize { error, message_type })
                    &&& error == e
                    &&& message_type@ == self.info().spec_name()
                },
            },
    {
        let decoded = from_bytes_framed::<T>(bytes);
        self.send_decoded(chan, decoded)
    }
}

// ---------------------------------------------------------------------------
// Laws
// ---------------------------------------------------------------------------

/// A channel can be used again and again: after a sender was made, its message
/// sent and received, the channel is as if nothing had happened on it. It is,
/// too, after an unused sender was dropped, but for the receiver's waiting.
pub proof fn channels_can_be_reused<T>(chan: OneshotView<T>, message: T)
    requires
        chan.valid(),
        chan.has_rx,
        !chan.has_tx,
    ensures
        chan.after_sender() == OneshotView::<T>::armed(),
        chan.after_sender().after_send(message).message == Some(message),
        chan.after_sender().after_send(message).after_recv() == OneshotView::<T>::idle(),
        chan.after_sender().after_drop() == OneshotView::<T>::idle(),
{
}

/// There is never more than one unused sender: while there is one, no other can
/// be made; once it was used or dropped, another can.
pub proof fn one_unused_sender_at_a_time<T>(chan: OneshotView<T>, message: T)
    requires
        chan.valid(),
        chan.has_tx,
        !chan.closed,
    ensures
        chan.after_sender() == chan,
        !chan.after_send(message).has_tx,
        chan.after_send(message).after_sender() == OneshotView::<T>::armed(),
        !chan.after_drop().has_tx,
        chan.after_drop().after_sender() == OneshotView::<T>::armed(),
{
}

/// Looking for a message in vain does not keep a sender from being made.
pub proof fn waiting_does_not_keep_senders_away<T>(chan: OneshotView<T>)
    requires
        chan.valid(),
        chan.has_rx,
        !chan.has_tx,
        chan.message is None,
    ensures
        chan.after_recv().after_sender() == OneshotView::<T>::armed(),
{
}

/// A channel that was closed stays closed, and holds no message.
pub proof fn closed_channels_stay_closed<T>(chan: OneshotView<T>, message: T)
    requires
        chan.valid(),
        chan.closed,
    ensures
        chan.after_sender().closed,
        chan.after_send(message).closed && chan.after_send(message).message is None,
        chan.after_drop().closed,
        chan.after_recv().closed,
{
}

/// Whatever is done to a channel, its state stays valid.
pub proof fn states_stay_valid<T>(chan: OneshotView<T>, message: T)
    requires
        chan.valid(),
    ensures
        chan.received_by() ==> chan.after_sender().valid() && chan.after_recv().valid(),
        chan.sent_by() ==> chan.after_send(message).valid() && chan.after_drop().valid(),
        OneshotView::<T>::shut().valid(),
        OneshotView::<T>::unclaimed().valid(),
{
}

/// What each step does to a channel, whatever has happened on it before.
///
/// A sender is made unless there is an unused one or the channel is closed, and then a
/// message that was not received is dropped, and nobody waits. A message that is sent
/// uses up the sender, and is kept unless the channel is closed. A sender that is dropped
/// leaves no message. Looking for a message takes it if there is one, and else the
/// receiver waits.
pub proof fn steps_of_a_channel<T>(chan: OneshotView<T>, message: T)
    requires
        chan.valid(),
        chan.has_rx || chan.closed,
    ensures
        ({
            let asked = chan.after_sender();
            &&& chan.closed || chan.has_tx ==> asked == chan
            &&& !chan.closed && !chan.has_tx ==> asked.has_rx && asked.has_tx && !asked.waiting
                && asked.message is None && !asked.closed
        }),
        chan.has_tx ==> ({
            let sent = chan.after_send(message);
            let dropped = chan.after_drop();
            &&& sent.message == Some(message) && !sent.has_tx
            &&& sent.has_rx == chan.has_rx && sent.waiting == chan.waiting && !sent.closed
            &&& dropped.message is None && !dropped.has_tx
            &&& dropped.has_rx == chan.has_rx && dropped.waiting == chan.waiting && !dropped.closed
        }),
        chan.closed ==> chan.after_send(message) == chan && chan.after_drop() == chan,
        ({
            let looked = chan.after_recv();
            &&& chan.message is Some ==> looked.message is None && !looked.has_tx && looked.has_rx
                && !looked.waiting && !looked.closed
            &&& chan.message is None ==> looked.waiting && looked.message is None && looked.has_tx
                == chan.has_tx && looked.has_rx == chan.has_rx && looked.closed == chan.closed
        }),
{
}

/// The states that a channel starts and ends in.
pub proof fn first_and_last_states<T>()
    ensures
        ({
            let unclaimed = OneshotView::<T>::unclaimed();
            let idle = OneshotView::<T>::idle();
            let shut = OneshotView::<T>::shut();
            &&& !unclaimed.has_rx && !unclaimed.has_tx && !unclaimed.waiting && unclaimed.message
                is None && !unclaimed.closed
            &&& idle.has_rx && !idle.has_tx && !idle.waiting && idle.message is None && !idle.closed
            &&& shut.closed && !shut.has_rx && !shut.has_tx && !shut.waiting && shut.message is None
        }),
{
}

/// The receiver may ask for senders and look for messages as long as it is there or has
/// closed the channel, and a sender may be used as long as it is unused or the channel was
/// closed.
pub proof fn handles_stay_usable<T>(chan: OneshotView<T>)
    ensures
        chan.received_by() <==> chan.has_rx || chan.closed,
        chan.sent_by() <==> chan.has_tx || chan.closed,
{
}

} // verus!
