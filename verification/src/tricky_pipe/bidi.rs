//! Bidirectional channels: a sender of one channel, and the receiver of another.
use super::mpsc::{DeserSender, Receiver, Sender, SerReceiver, TrickyPipe};
use vstd::prelude::*;

verus! {

/// Sends messages of type `Out`, and receives messages of type `In`.
#[must_use]
pub struct BiDi<In, Out, E> {
    tx: Sender<Out, E>,
    rx: Receiver<In, E>,
}

/// Sends and receives messages as serialized bytes.
#[must_use]
pub struct SerBiDi<E> {
    tx: DeserSender<E>,
    rx: SerReceiver<E>,
}

/// What may happen on a bidirectional channel.
#[derive(Debug)]
#[must_use]
pub enum Event<In, Out> {
    /// A message was received.
    Recv(In),
    /// There is room for a message to be sent.
    SendReady(Out),
}

impl<In, Out, E> BiDi<In, Out, E> {
    /// The sending end.
    pub closed spec fn spec_tx(self) -> Sender<Out, E> {
        self.tx
    }

    /// The receiving end.
    pub closed spec fn spec_rx(self) -> Receiver<In, E> {
        self.rx
    }

    /// The channel made of the two ends.
    pub fn from_pair(tx: Sender<Out, E>, rx: Receiver<In, E>) -> (r: BiDi<In, Out, E>)
        ensures
            r.spec_tx() == tx,
            r.spec_rx() == rx,
    {
        BiDi { tx, rx }
    }

    /// The two ends.
    #[must_use]
    pub fn split(self) -> (r: (Sender<Out, E>, Receiver<In, E>))
        ensures
            r == (self.spec_tx(), self.spec_rx()),
    {
        (self.tx, self.rx)
    }

    /// The sending end.
    #[must_use]
    pub fn tx(&self) -> (r: &Sender<Out, E>)
        ensures
            *r == self.spec_tx(),
    {
        &self.tx
    }

    /// The receiving end.
    #[must_use]
    pub fn rx(&self) -> (r: &Receiver<In, E>)
        ensures
            *r == self.spec_rx(),
    {
        &self.rx
    }

    /// Whether there is no message in either direction.
    #[must_use]
    pub fn is_empty(&self, tx_pipe: &TrickyPipe<Out, E>, rx_pipe: &TrickyPipe<In, E>) -> (r: bool)
        requires
            tx_pipe.wf(),
            rx_pipe.wf(),
        ensures
            r == (tx_pipe@.messages.len() == 0 && rx_pipe@.messages.len() == 0),
    {
        self.tx.is_empty(tx_pipe) && self.rx.is_empty(rx_pipe)
    }

    /// Whether both directions hold as many messages as they can.
    #[must_use]
    pub fn is_full(&self, tx_pipe: &TrickyPipe<Out, E>, rx_pipe: &TrickyPipe<In, E>) -> (r: bool)
        requires
            tx_pipe.wf(),
            rx_pipe.wf(),
        ensures
            r == (tx_pipe@.messages.len() == tx_pipe@.capacity && rx_pipe@.messages.len()
                == rx_pipe@.capacity),
    {
        self.tx.is_full(tx_pipe) && self.rx.is_full(rx_pipe)
    }
}

impl<E> SerBiDi<E> {
    /// The sending end.
    pub closed spec fn spec_tx(self) -> DeserSender<E> {
        self.tx
    }

    /// The receiving end.
    pub closed spec fn spec_rx(self) -> SerReceiver<E> {
        self.rx
    }

    /// The channel made of the two ends.
    pub fn from_pair(tx: DeserSender<E>, rx: SerReceiver<E>) -> (r: SerBiDi<E>)
        ensures
            r.spec_tx() == tx,
            r.spec_rx() == rx,
    {
        SerBiDi { tx, rx }
    }

    /// The two ends.
    #[must_use]
    pub fn split(self) -> (r: (DeserSender<E>, SerReceiver<E>))
        ensures
            r == (self.spec_tx(), self.spec_rx()),
    {
        (self.tx, self.rx)
    }

    /// The sending end.
    #[must_use]
    pub fn tx(&self) -> (r: &DeserSender<E>)
        ensures
            *r == self.spec_tx(),
    {
        &self.tx
    }

    /// The receiving end.
    #[must_use]
    pub fn rx(&self) -> (r: &SerReceiver<E>)
        ensures
            *r == self.spec_rx(),
    {
        &self.rx
    }

    /// Whether there is no message in either direction.
    #[must_use]
    pub fn is_empty<In, Out>(&self, tx_pipe: &TrickyPipe<Out, E>, rx_pipe: &TrickyPipe<In, E>) -> (r:
        bool)
        requires
            tx_pipe.wf(),
            rx_pipe.wf(),
        ensures
            r == (tx_pipe@.messages.len() == 0 && rx_pipe@.messages.len() == 0),
    {
        self.tx.is_empty(tx_pipe) && self.rx.is_empty(rx_pipe)
    }

    /// Whether both directions hold as many messages as they can.
    #[must_use]
    pub fn is_full<In, Out>(&self, tx_pipe: &TrickyPipe<Out, E>, rx_pipe: &TrickyPipe<In, E>) -> (r:
        bool)
        requires
            tx_pipe.wf(),
            rx_pipe.wf(),
        ensures
            r == (tx_pipe@.messages.len() == tx_pipe@.capacity && rx_pipe@.messages.len()
                == rx_pipe@.capacity),
    {
        self.tx.is_full(tx_pipe) && self.rx.is_full(rx_pipe)
    }
}

} // verus!
