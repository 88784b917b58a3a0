//! The state machine that runs the connections of an interface over one wire.
use super::conn_table::{
    after_inbound, exhausted, inbound, next_id, ConnTable, Delivery, Socket, State, Step,
};
use super::message::{ControlMessage, Message, Nak};
use crate::codec::{from_bytes, Codec};
use crate::id::Id;
use crate::registry::Identity;
use crate::slots::SlotsView;
use vstd::prelude::*;

verus! {

/// The number of connections of an interface, unless another is chosen.
pub const DEFAULT_MAX_CONNS: usize = 512;

/// A request to connect to a remote service.
pub struct OutboundConnect<C> {
    /// The identity of the remote service to connect to.
    pub identity: Identity,
    /// The serialized greeting to send to the remote service.
    pub hello: Vec<u8>,
    /// The local channel to bind to the remote service.
    pub channel: C,
}

/// Something that happened outside of the interface.
pub enum Event<C> {
    /// The wire received the bytes of a message.
    Received(Vec<u8>),
    /// A connection has a message to send.
    Outbound(Message),
    /// A local user asks for a connection, or none ever will again.
    Requested(Option<OutboundConnect<C>>),
    /// Data was passed on to a local channel, or could not be.
    Delivered { local_id: Id, remote_id: Id, outcome: Delivery },
    /// A local service answered a connection request of the remote.
    Connected { remote_id: Id, answer: Result<C, Nak> },
    /// The wire failed.
    WireFailed,
}

/// What is to happen outside of the interface.
pub enum Action {
    /// Wait for the next event.
    Wait,
    /// Send a message over the wire.
    Send(Message),
    /// Send data to the local channel of a connection, and report it.
    Deliver { local_id: Id, remote_id: Id, data: Vec<u8> },
    /// Ask a local service for a connection, and report its answer.
    Connect { remote_id: Id, identity: Identity, hello: Vec<u8> },
    /// Stop.
    Fail,
}

/// The state machine of an interface.
pub struct Interface<C, const MAX_CONNS: usize> {
    conn_table: ConnTable<C, MAX_CONNS>,
}

/// What the interface does for what is left to be done.
pub open spec fn action_of(step: Step) -> Action {
    match step {
        Step::Done => Action::Wait,
        Step::Reply(message) => Action::Send(message),
        Step::Deliver { local_id, remote_id, data } => Action::Deliver {
            local_id,
            remote_id,
            data,
        },
        Step::Connect { remote_id, identity, hello } => Action::Connect {
            remote_id,
            identity,
            hello,
        },
    }
}

impl<C, const MAX_CONNS: usize> Interface<C, MAX_CONNS> {
    /// The connections.
    pub closed spec fn table(self) -> SlotsView<Socket<C>> {
        self.conn_table@
    }

    /// The table of connections is in order.
    pub closed spec fn wf(self) -> bool {
        self.conn_table.wf()
    }

    /// An interface without connections.
    pub fn new() -> (r: Interface<C, MAX_CONNS>)
        ensures
            r.wf(),
            r.table() == SlotsView::<Socket<C>>::unused(MAX_CONNS as nat),
    {
        Interface { conn_table: ConnTable::new() }
    }

    /// One step of the interface: takes note of what happened, and decides what is
    /// to happen next.
    pub fn run(&mut self, event: Event<C>) -> (r: Action)
        requires
            old(self).wf(),
            match event {
                Event::Requested(connect) => connect is Some ==> !exhausted(old(self).table()),
                Event::Connected { remote_id, answer } => answer is Ok
                    ==> !exhausted(old(self).table()),
                _ => true,
            },
        ensures
            final(self).wf(),
            // only a wire that fails stops the interface.
            r is Fail <==> event is WireFailed,
            match event {
                Event::Received(frame) => match <Message as Codec>::decoding(frame@) {
                    Ok((message, rest)) => exists|m: Message| #[trigger]
                        m@ == message && final(self).table() == after_inbound(old(self).table(), m)
                            && r == action_of(inbound(old(self).table(), m)),
                    // a message that cannot be decoded is passed over.
                    Err(_) => r is Wait && final(self).table() == old(self).table(),
                },
                Event::Outbound(message) => {
                    &&& r == Action::Send(message)
                    &&& final(self).table() == old(self).table()
                },
                Event::Requested(None) => r is Wait && final(self).table() == old(self).table(),
                Event::Requested(Some(connect)) => if old(self).table().full() {
                    r is Wait && final(self).table() == old(self).table()
                } else {
                    &&& r == Action::Send(
                        Message::Control(
                            ControlMessage::Connect {
                                local_id: next_id(old(self).table()),
                                identity: connect.identity,
                                hello: connect.hello,
                            },
                        ),
                    )
                    &&& final(self).table() == old(self).table().insert(
                        Socket { state: State::Connecting, bidi: connect.channel },
                    )
                },
                Event::Delivered { local_id, remote_id, outcome } => if outcome
                    == Delivery::ChannelClosed {
                    &&& r == Action::Send(Message::Control(ControlMessage::Reset { remote_id }))
                    &&& final(self).table() == old(self).table().remove(local_id.index())
                } else {
                    r is Wait && final(self).table() == old(self).table()
                },
                Event::Connected { remote_id, answer } => match answer {
                    Ok(bidi) => if old(self).table().full() {
                        &&& r == Action::Send(
                            Message::Control(
                                ControlMessage::Nak {
                                    remote_id,
                                    reason: Nak::ConnTableFull(MAX_CONNS),
                                },
                            ),
                        )
                        &&& final(self).table() == old(self).table()
                    } else {
                        &&& r == Action::Send(
                            Message::Control(
                                ControlMessage::Ack {
                                    local_id: next_id(old(self).table()),
                                    remote_id,
                                },
                            ),
                        )
                        &&& final(self).table() == old(self).table().insert(
                            Socket { state: State::Open { remote_id }, bidi },
                        )
                    },
                    Err(reason) => {
                        &&& r == Action::Send(
                            Message::Control(ControlMessage::Nak { remote_id, reason }),
                        )
                        &&& final(self).table() == old(self).table()
                    },
                },
                Event::WireFailed => r is Fail && final(self).table() == old(self).table(),
            },
    {
        match event {
            // inbound message from the wire.
            Event::Received(frame) => self.process_inbound(frame),
            // either a connection needs to send data, or a connection has
            // closed locally.
            Event::Outbound(message) => Action::Send(message),
            // locally-initiated connect request
            Event::Requested(None) => Action::Wait,
            Event::Requested(Some(OutboundConnect { identity, hello, channel })) => {
                match self.conn_table.start_connecting(identity, hello, channel) {
                    Some(message) => Action::Send(Message::Control(message)),
                    None => Action::Wait,
                }
            },
            Event::Delivered { local_id, remote_id, outcome } => match self.conn_table.delivered(
                local_id,
                remote_id,
                outcome,
            ) {
                Some(message) => Action::Send(message),
                None => Action::Wait,
            },
            Event::Connected { remote_id, answer } => Action::Send(
                Message::Control(self.conn_table.connected(remote_id, answer)),
            ),
            Event::WireFailed => Action::Fail,
        }
    }

    /// Processes the bytes of an inbound message. One that cannot be decoded is
    /// passed over, so that the interface keeps running.
    fn process_inbound(&mut self, frame: Vec<u8>) -> (r: Action)
        requires
            old(self).wf(),
        ensures
            final(self).wf(),
            match <Message as Codec>::decoding(frame@) {
                Ok((message, rest)) => exists|m: Message| #[trigger]
                    m@ == message && final(self).table() == after_inbound(old(self).table(), m) && r
                        == action_of(inbound(old(self).table(), m)),
                Err(_) => r is Wait && final(self).table() == old(self).table(),
            },
    {
        let msg = match from_bytes::<Message>(frame.as_slice()) {
            Ok(msg) => msg,
            Err(_) => {
                return Action::Wait;
            },
        };
        let ghost m = msg;
        assert(m@ == msg@);
        match self.conn_table.process_inbound(msg) {
            Step::Done => Action::Wait,
            Step::Reply(message) => Action::Send(message),
            Step::Deliver { local_id, remote_id, data } => Action::Deliver {
                local_id,
                remote_id,
                data,
            },
            Step::Connect { remote_id, identity, hello } => Action::Connect {
                remote_id,
                identity,
                hello,
            },
        }
    }
}

/// What the table leaves to be done is what the interface asks for, unchanged.
pub proof fn interfaces_do_what_the_table_says(
    message: Message,
    local_id: Id,
    remote_id: Id,
    data: Vec<u8>,
    identity: Identity,
)
    ensures
        action_of(Step::Done) is Wait,
        action_of(Step::Reply(message)) == Action::Send(message),
        action_of(Step::Deliver { local_id, remote_id, data }) == (Action::Deliver {
            local_id,
            remote_id,
            data,
        }),
        action_of(Step::Connect { remote_id, identity, hello: data }) == (Action::Connect {
            remote_id,
            identity,
            hello: data,
        }),
{
}

} // verus!
