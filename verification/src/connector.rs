//! Local requests for connections to remote services.
use crate::codec::{push, varint, Codec, PostcardError};
use crate::conn_table::OutboundConnect;
use crate::id::Id;
use crate::message::{Rejection, Reset};
use crate::tricky_pipe::bidi::{BiDi, SerBiDi};
use crate::plugtail::vacant_array;
use crate::tricky_pipe::mpsc::channel_core::MAX_CAPACITY;
use crate::tricky_pipe::mpsc::error::TrySendError;
use crate::tricky_pipe::mpsc::{Elements, PipeView, Sender, TrickyPipe};
use crate::tricky_pipe::oneshot::RecvError;
use crate::tricky_pipe::typeinfo::id_of;
use vstd::prelude::*;

verus! {

/// Why there is no connection.
#[derive(Copy, Clone, Debug, PartialEq, Eq, Structural)]
pub enum ConnectError {
    /// The interface is gone.
    InterfaceDead,
    /// The remote, or the interface, refused the connection.
    Nak(Rejection),
}

/// The two channels of a connection, and their ends: those of the interface, which
/// handles serialized messages, and those of the client. The messages are in storage of
/// types `SI` and `SO`.
pub struct Channels<In, Out, SI = Vec<Option<In>>, SO = Vec<Option<Out>>> {
    /// The channel from the client to the interface.
    pub c2s: TrickyPipe<Out, Reset, SO>,
    /// The channel from the interface to the client.
    pub s2c: TrickyPipe<In, Reset, SI>,
    /// The interface's ends.
    pub srv_chan: SerBiDi<Reset>,
    /// The client's ends.
    pub client_chan: BiDi<In, Out, Reset>,
}

/// Storage of a fixed size for the two channels of a connection, which holds the
/// messages in place.
pub struct StaticChannels<In, Out, const CAPACITY: usize> {
    s2c: TrickyPipe<In, Reset, [Option<In>; CAPACITY]>,
    c2s: TrickyPipe<Out, Reset, [Option<Out>; CAPACITY]>,
}

/// A channel whose ends are handed out: it has one sender, and its receiver.
pub open spec fn handed_out<T>(capacity: nat) -> PipeView<T, Reset> {
    PipeView { rx_claimed: true, tx_count: 1, ..PipeView::fresh(capacity) }
}

impl<In, Out, const CAPACITY: usize> StaticChannels<In, Out, CAPACITY> {
    /// Nothing has happened to the channels yet.
    pub closed spec fn unused(self) -> bool {
        &&& self.s2c.wf()
        &&& self.c2s.wf()
        &&& self.s2c@ == PipeView::<In, Reset>::fresh(CAPACITY as nat).add_tx()
        &&& self.c2s@ == PipeView::<Out, Reset>::fresh(CAPACITY as nat).add_tx()
    }

    /// Storage for two channels with room for `CAPACITY` messages each.
    pub fn new() -> (r: StaticChannels<In, Out, CAPACITY>)
        requires
            CAPACITY <= MAX_CAPACITY,
        ensures
            r.unused(),
    {
        let mut s2c = TrickyPipe::with_elements(CAPACITY as u8, vacant_array::<In, CAPACITY>());
        let mut c2s = TrickyPipe::with_elements(CAPACITY as u8, vacant_array::<Out, CAPACITY>());
        s2c.add_handle();
        c2s.add_handle();
        StaticChannels { s2c, c2s }
    }
}

impl<In: Codec + 'static, Out: Codec + 'static, const CAPACITY: usize> Channels<
    In,
    Out,
    [Option<In>; CAPACITY],
    [Option<Out>; CAPACITY],
> {
    /// Two channels in storage that was not used before. The names describe the types of
    /// the messages.
    pub fn from_static(
        storage: StaticChannels<In, Out, CAPACITY>,
        in_name: &'static str,
        out_name: &'static str,
    ) -> (r: Self)
        requires
            storage.unused(),
        ensures
            r.is_wired(CAPACITY as nat, in_name@, out_name@),
    {
        Channels::wire(storage.s2c, storage.c2s, in_name, out_name, Ghost(CAPACITY as nat))
    }
}

impl<In: Codec + 'static, Out: Codec + 'static> Channels<In, Out> {
    /// Two channels with room for `capacity` messages each. The names describe the
    /// types of the messages.
    pub fn new(capacity: u8, in_name: &'static str, out_name: &'static str) -> (r: Channels<In, Out>)
        requires
            capacity <= MAX_CAPACITY,
        ensures
            r.is_wired(capacity as nat, in_name@, out_name@),
    {
        let s2c: TrickyPipe<In, Reset> = TrickyPipe::new(capacity);
        let c2s: TrickyPipe<Out, Reset> = TrickyPipe::new(capacity);
        Channels::wire(s2c, c2s, in_name, out_name, Ghost(capacity as nat))
    }
}

impl<In: Codec + 'static, Out: Codec + 'static, SI: Elements<In>, SO: Elements<Out>> Channels<
    In,
    Out,
    SI,
    SO,
> {
    /// The channels have room for `capacity` messages each, and their ends are handed
    /// out crosswise: the interface sends what the client receives, and the other way
    /// round.
    pub open spec fn is_wired(self, capacity: nat, in_name: Seq<char>, out_name: Seq<char>) -> bool {
        &&& self.c2s.wf()
        &&& self.s2c.wf()
        &&& self.c2s@ == handed_out::<Out>(capacity)
        &&& self.s2c@ == handed_out::<In>(capacity)
        &&& self.srv_chan.spec_tx().info().spec_id() == id_of::<In>()
        &&& self.srv_chan.spec_tx().info().spec_name() == in_name
        &&& self.srv_chan.spec_rx().info().spec_id() == id_of::<Out>()
        &&& self.srv_chan.spec_rx().info().spec_name() == out_name
    }

    /// Hands out the ends of two channels that were not used before.
    fn wire(
        s2c: TrickyPipe<In, Reset, SI>,
        c2s: TrickyPipe<Out, Reset, SO>,
        in_name: &'static str,
        out_name: &'static str,
        capacity: Ghost<nat>,
    ) -> (r: Self)
        requires
            s2c.wf(),
            c2s.wf(),
            s2c@ == PipeView::<In, Reset>::fresh(capacity@).add_tx(),
            c2s@ == PipeView::<Out, Reset>::fresh(capacity@).add_tx(),
        ensures
            r.is_wired(capacity@, in_name@, out_name@),
    {
        let mut s2c = s2c;
        let mut c2s = c2s;
        let deser_tx = s2c.deser_sender(in_name);
        let ser_rx = c2s.ser_receiver(out_name);
        let tx = c2s.sender();
        let rx = s2c.receiver();
        // no further senders are made.
        let _ = s2c.drop_handle();
        let _ = c2s.drop_handle();
        match (ser_rx, rx) {
            (Some(ser_rx), Some(rx)) => Channels {
                c2s,
                s2c,
                srv_chan: SerBiDi::from_pair(deser_tx, ser_rx),
                client_chan: BiDi::from_pair(tx, rx),
            },
            _ => vstd::pervasive::unreached(),
        }
    }
}

/// Asks the interface for a connection, or returns the request if it has to wait
/// until the interface takes it.
pub fn start_connect<C, P, R>(
    tx: &Sender<OutboundConnect<C, P, R>, ()>,
    pipe: &mut TrickyPipe<OutboundConnect<C, P, R>, ()>,
    connect: OutboundConnect<C, P, R>,
) -> (r: Result<Result<(), ConnectError>, OutboundConnect<C, P, R>>)
    requires
        old(pipe).wf(),
    ensures
        final(pipe).wf(),
        match r {
            Ok(Ok(_)) => {
                &&& !old(pipe)@.send_closed
                &&& !old(pipe)@.full()
                &&& final(pipe)@ == old(pipe)@.push(connect)
            },
            Ok(Err(e)) => {
                &&& old(pipe)@.send_closed
                &&& e == ConnectError::InterfaceDead
                &&& final(pipe)@ == old(pipe)@
            },
            Err(back) => {
                &&& !old(pipe)@.send_closed
                &&& old(pipe)@.full()
                &&& back == connect
                &&& final(pipe)@ == old(pipe)@
            },
        },
{
    proof {
        old(pipe).lemma_valid();
    }
    match tx.poll_reserve(pipe) {
        Some(Ok(permit)) => {
            let ghost idx = permit.index();
            permit.send(pipe, connect);
            assert(old(pipe)@.reserved.insert(idx).remove(idx) =~= old(pipe)@.reserved);
            Ok(Ok(()))
        },
        Some(Err(_)) => Ok(Err(ConnectError::InterfaceDead)),
        None => Err(connect),
    }
}

/// What the answer to a connection request means for the client, which has the
/// given end of the connection.
pub fn finish_connect<C>(answer: Result<Result<(), Rejection>, RecvError>, chan: C) -> (r: Result<
    C,
    ConnectError,
>)
    ensures
        r == match answer {
            Ok(Ok(_)) => Ok::<C, ConnectError>(chan),
            Ok(Err(reason)) => Err(ConnectError::Nak(reason)),
            Err(_) => Err(ConnectError::InterfaceDead),
        },
{
    match answer {
        Ok(Ok(_)) => Ok(chan),
        Ok(Err(reason)) => Err(ConnectError::Nak(reason)),
        Err(_) => Err(ConnectError::InterfaceDead),
    }
}

// ---------------------------------------------------------------------------
// Channels that label their messages
// ---------------------------------------------------------------------------

/// The identifiers of both ends of a connection.
#[derive(Copy, Clone, Debug, PartialEq, Eq, Structural)]
pub struct Ids {
    pub local_id: Id,
    pub remote_id: Id,
}

/// A message, and the connection that it belongs to.
#[derive(Debug, PartialEq, Eq)]
pub struct DataFrame<T> {
    pub ids: Ids,
    pub data: T,
}

impl View for Ids {
    type V = Ids;

    open spec fn view(&self) -> Ids {
        *self
    }
}

impl<T: View> View for DataFrame<T> {
    type V = (Ids, T::V);

    open spec fn view(&self) -> (Ids, T::V) {
        (self.ids, self.data@)
    }
}

impl Codec for Ids {
    open spec fn encodable(v: Ids) -> bool {
        v.local_id.valid() && v.remote_id.valid()
    }

    open spec fn encoding(v: Ids) -> Seq<u8> {
        <(Id, Id) as Codec>::encoding((v.local_id, v.remote_id))
    }

    open spec fn decoding(bytes: Seq<u8>) -> Result<(Ids, Seq<u8>), PostcardError> {
        match <(Id, Id) as Codec>::decoding(bytes) {
            Ok(((local_id, remote_id), rest)) => Ok((Ids { local_id, remote_id }, rest)),
            Err(e) => Err(e),
        }
    }

    fn to_vec(&self) -> (r: Vec<u8>) {
        (self.local_id, self.remote_id).to_vec()
    }

    fn take_from_bytes(bytes: &[u8]) -> (r: Result<(Ids, &[u8]), PostcardError>) {
        match <(Id, Id) as Codec>::take_from_bytes(bytes) {
            Ok(((local_id, remote_id), rest)) => Ok((Ids { local_id, remote_id }, rest)),
            Err(e) => Err(e),
        }
    }

    proof fn round_trip(v: Ids, rest: Seq<u8>) {
        <(Id, Id) as Codec>::round_trip((v.local_id, v.remote_id), rest);
    }
}

impl<T: Codec> Codec for DataFrame<T> {
    open spec fn encodable(v: (Ids, T::V)) -> bool {
        <(Ids, T) as Codec>::encodable(v)
    }

    open spec fn encoding(v: (Ids, T::V)) -> Seq<u8> {
        <(Ids, T) as Codec>::encoding(v)
    }

    open spec fn decoding(bytes: Seq<u8>) -> Result<((Ids, T::V), Seq<u8>), PostcardError> {
        <(Ids, T) as Codec>::decoding(bytes)
    }

    fn to_vec(&self) -> (r: Vec<u8>) {
        let mut out = self.ids.to_vec();
        push(&mut out, &self.data);
        out
    }

    fn take_from_bytes(bytes: &[u8]) -> (r: Result<(DataFrame<T>, &[u8]), PostcardError>) {
        match <(Ids, T) as Codec>::take_from_bytes(bytes) {
            Ok(((ids, data), rest)) => Ok((DataFrame { ids, data }, rest)),
            Err(e) => Err(e),
        }
    }

    proof fn round_trip(v: (Ids, T::V), rest: Seq<u8>) {
        <(Ids, T) as Codec>::round_trip(v, rest);
    }
}

/// The client's end of a connection, which labels the messages it sends.
pub struct ClientChannel<In, Out> {
    ids: Ids,
    chan: BiDi<In, DataFrame<Out>, ()>,
}

impl<In, Out> ClientChannel<In, Out> {
    /// The identifiers of the connection.
    pub closed spec fn ids(self) -> Ids {
        self.ids
    }

    /// The channel that the messages go through.
    pub closed spec fn chan(self) -> BiDi<In, DataFrame<Out>, ()> {
        self.chan
    }

    /// The end of the connection with the given identifiers.
    pub fn new(ids: Ids, chan: BiDi<In, DataFrame<Out>, ()>) -> (r: ClientChannel<In, Out>)
        ensures
            r.ids() == ids,
            r.chan() == chan,
    {
        ClientChannel { ids, chan }
    }

    /// Sends a message with the identifiers of the connection, or hands it back:
    /// because there is no room for it, or because the connection is gone.
    pub fn send(&self, pipe: &mut TrickyPipe<DataFrame<Out>, ()>, message: Out) -> (r: Result<
        (),
        TrySendError<(), Out>,
    >)
        requires
            old(pipe).wf(),
        ensures
            final(pipe).wf(),
            match r {
                Ok(_) => {
                    &&& !old(pipe)@.send_closed
                    &&& !old(pipe)@.full()
                    &&& final(pipe)@ == old(pipe)@.push(
                        DataFrame { ids: self.ids(), data: message },
                    )
                },
                Err(error) => {
                    &&& old(pipe)@.refuses(error)
                    &&& error.message() == message
                    &&& final(pipe)@ == old(pipe)@
                },
            },
    {
        match self.chan.tx().try_send(pipe, DataFrame { ids: self.ids, data: message }) {
            Ok(_) => Ok(()),
            Err(TrySendError::Full(frame)) => Err(TrySendError::Full(frame.data)),
            Err(TrySendError::Disconnected(frame)) => Err(TrySendError::Disconnected(frame.data)),
            Err(TrySendError::Error { message: frame, error }) => Err(
                TrySendError::Error { message: frame.data, error },
            ),
        }
    }
}

/// The channels of a connection are empty and open, with one sender and the receiver handed
/// out, and the interface's ends are for what the client receives and sends.
pub proof fn ends_are_handed_out_crosswise<
    In: Codec + 'static,
    Out: Codec + 'static,
    SI: Elements<In>,
    SO: Elements<Out>,
>(channels: Channels<In, Out, SI, SO>, capacity: nat, in_name: Seq<char>, out_name: Seq<char>)
    requires
        channels.is_wired(capacity, in_name, out_name),
    ensures
        channels.s2c@.messages.len() == 0 && channels.c2s@.messages.len() == 0,
        channels.s2c@.capacity == capacity && channels.c2s@.capacity == capacity,
        channels.s2c@.tx_count == 1 && channels.c2s@.tx_count == 1,
        channels.s2c@.rx_claimed && channels.c2s@.rx_claimed,
        !channels.s2c@.send_closed && !channels.c2s@.send_closed,
        !channels.s2c@.recv_closed && !channels.c2s@.recv_closed,
        channels.srv_chan.spec_tx().info().spec_id() == id_of::<In>(),
        channels.srv_chan.spec_tx().info().spec_name() == in_name,
        channels.srv_chan.spec_rx().info().spec_id() == id_of::<Out>(),
        channels.srv_chan.spec_rx().info().spec_name() == out_name,
{
}

/// A labelled message is laid out as the local and the remote identifier, and the message.
pub proof fn labels_come_first<T: Codec>(ids: Ids, data: T::V)
    requires
        1 <= ids.local_id.number() <= u16::MAX,
        1 <= ids.remote_id.number() <= u16::MAX,
    ensures
        <DataFrame<T> as Codec>::encoding((ids, data)) == varint(ids.local_id.number()) + varint(
            ids.remote_id.number(),
        ) + T::encoding(data),
{
}

} // verus!
