//! The connections of an interface.
use super::message::{ControlMessage, Message, Nak};
use crate::id::Id;
use crate::registry::Identity;
use crate::slots::{Slots, SlotsView};
use vstd::prelude::*;

verus! {

/// The state of a connection.
#[derive(Copy, Clone, Debug, PartialEq, Eq, Structural)]
pub enum State {
    /// The connection is established; the identifier that the remote gave it.
    Open { remote_id: Id },
    /// The remote has not answered yet.
    Connecting,
}

/// A connection: its state, and the handle of its local channel.
pub struct Socket<C> {
    pub state: State,
    pub bidi: C,
}

/// The table of the connections of an interface.
pub struct ConnTable<C, const CAPACITY: usize> {
    conns: Slots<Socket<C>>,
}

/// What is left to be done for an inbound message.
pub enum Step {
    /// Nothing is left to be done.
    Done,
    /// A message is to be sent to the remote.
    Reply(Message),
    /// The data is to be sent to the channel of connection `local_id`, and the
    /// outcome reported with [`ConnTable::delivered`].
    Deliver { local_id: Id, remote_id: Id, data: Vec<u8> },
    /// The service with the given identity is to be asked for a connection, and
    /// the outcome reported with [`ConnTable::connected`].
    Connect { remote_id: Id, identity: Identity, hello: Vec<u8> },
}

/// What became of the data of a message.
#[derive(Copy, Clone, Debug, PartialEq, Eq, Structural)]
pub enum Delivery {
    /// It was sent to the local channel.
    Sent,
    /// It could not be decoded.
    BadData,
    /// The local channel is closed.
    ChannelClosed,
}

/// Whether there is a connection with the given identifier.
pub open spec fn holds<C>(table: SlotsView<Socket<C>>, id: Id) -> bool {
    table.values.contains_key(id.index())
}

/// The connection with the given identifier.
pub open spec fn socket_at<C>(table: SlotsView<Socket<C>>, id: Id) -> Socket<C> {
    table.values[id.index()]
}

/// The identifier of the next connection.
pub open spec fn next_id<C>(table: SlotsView<Socket<C>>) -> Id {
    Id::of((table.next() + 1) as nat)
}

/// Whether there is room for a connection, but no identifier is left for it.
pub open spec fn exhausted<C>(table: SlotsView<Socket<C>>) -> bool {
    !table.full() && table.vacated.len() == 0 && table.fresh == u16::MAX - 1
}

/// The values of the first `n` slots that are occupied, in the order of the slots.
pub open spec fn in_order<S>(values: Map<int, S>, n: nat) -> Seq<S>
    decreases n,
{
    if n == 0 {
        Seq::empty()
    } else if values.contains_key(n - 1) {
        in_order(values, (n - 1) as nat).push(values[n - 1])
    } else {
        in_order(values, (n - 1) as nat)
    }
}

/// The table after an inbound message.
pub open spec fn after_inbound<C>(table: SlotsView<Socket<C>>, message: Message) -> SlotsView<
    Socket<C>,
> {
    match message {
        Message::Control(ControlMessage::Ack { local_id, remote_id }) => if holds(table, remote_id)
            && socket_at(table, remote_id).state is Connecting {
            table.replace(
                remote_id.index(),
                Socket {
                    state: State::Open { remote_id: local_id },
                    bidi: socket_at(table, remote_id).bidi,
                },
            )
        } else {
            table
        },
        Message::Control(ControlMessage::Nak { remote_id, reason }) => table.remove(
            remote_id.index(),
        ),
        Message::Control(ControlMessage::Reset { remote_id }) => table.remove(remote_id.index()),
        _ => table,
    }
}

/// What is left to be done for an inbound message. The identifier that the remote
/// calls its remote one is the local one here.
pub open spec fn inbound<C>(table: SlotsView<Socket<C>>, message: Message) -> Step {
    match message {
        Message::Data { local_id, remote_id, data } => if holds(table, remote_id) {
            Step::Deliver { local_id: remote_id, remote_id: local_id, data }
        } else {
            Step::Reply(Message::Control(ControlMessage::Reset { remote_id: local_id }))
        },
        Message::Control(ControlMessage::Ack { local_id, remote_id }) => if holds(table, remote_id)
            && socket_at(table, remote_id).state is Connecting {
            Step::Done
        } else {
            Step::Reply(Message::Control(ControlMessage::Reset { remote_id: local_id }))
        },
        Message::Control(ControlMessage::Nak { remote_id, reason }) => Step::Done,
        Message::Control(ControlMessage::Reset { remote_id }) => Step::Done,
        Message::Control(ControlMessage::Connect { local_id, identity, hello }) => Step::Connect {
            remote_id: local_id,
            identity,
            hello,
        },
    }
}

impl<C, const CAPACITY: usize> View for ConnTable<C, CAPACITY> {
    type V = SlotsView<Socket<C>>;

    /// The connections; identifier `n` belongs to slot `n - 1`.
    closed spec fn view(&self) -> SlotsView<Socket<C>> {
        self.conns.contents()
    }
}

impl<C, const CAPACITY: usize> ConnTable<C, CAPACITY> {
    /// The table has the declared number of slots, and its slots are in order.
    pub closed spec fn wf(self) -> bool {
        &&& self.conns.wf()
        &&& self.conns.spec_capacity() == CAPACITY
        &&& self.conns.fresh() < u16::MAX
    }

    /// A table in order has valid contents.
    pub proof fn lemma_valid(self)
        requires
            self.wf(),
        ensures
            self@.valid(),
            self@.capacity == CAPACITY,
            self@.fresh < u16::MAX,
    {
        self.conns.lemma_valid();
    }

    /// A table without connections.
    #[must_use]
    pub fn new() -> (r: ConnTable<C, CAPACITY>)
        ensures
            r.wf(),
            r@ == SlotsView::<Socket<C>>::unused(CAPACITY as nat),
    {
        ConnTable { conns: Slots::new(CAPACITY) }
    }

    /// Processes an inbound message, and returns what is left to be done for it.
    pub fn process_inbound(&mut self, msg: Message) -> (r: Step)
        requires
            old(self).wf(),
        ensures
            final(self).wf(),
            final(self)@ == after_inbound(old(self)@, msg),
            r == inbound(old(self)@, msg),
    {
        match msg {
            Message::Data { local_id, remote_id, data } => {
                // the remote peer's remote ID is our local ID.
                match self.conns.get(remote_id.to_index()) {
                    Some(_) => Step::Deliver { local_id: remote_id, remote_id: local_id, data },
                    None => Step::Reply(Message::reset(local_id)),
                }
            },
            Message::Control(ControlMessage::Ack { local_id, remote_id }) => {
                match self.process_ack(remote_id, local_id) {
                    Ok(_) => Step::Done,
                    Err(msg) => Step::Reply(msg),
                }
            },
            Message::Control(ControlMessage::Nak { remote_id, .. }) => {
                let _ = self.close(remote_id);
                Step::Done
            },
            Message::Control(ControlMessage::Reset { remote_id }) => {
                let _ = self.close(remote_id);
                Step::Done
            },
            Message::Control(ControlMessage::Connect { local_id, identity, hello }) => {
                Step::Connect { remote_id: local_id, identity, hello }
            },
        }
    }

    /// Takes note of what became of the data of a message, and returns the message
    /// to send, if any: a connection whose channel is closed is ended.
    pub fn delivered(&mut self, local_id: Id, remote_id: Id, outcome: Delivery) -> (r: Option<
        Message,
    >)
        requires
            old(self).wf(),
        ensures
            final(self).wf(),
            if outcome == Delivery::ChannelClosed {
                &&& r == Some(Message::Control(ControlMessage::Reset { remote_id }))
                &&& final(self)@ == old(self)@.remove(local_id.index())
            } else {
                r is None && final(self)@ == old(self)@
            },
    {
        match outcome {
            Delivery::ChannelClosed => {
                let _ = self.close(local_id);
                Some(Message::reset(remote_id))
            },
            _ => None,
        }
    }

    /// Takes note of the answer of a local service to a connection request from
    /// the remote, and returns the message to send.
    pub fn connected(&mut self, remote_id: Id, answer: Result<C, Nak>) -> (r: ControlMessage)
        requires
            old(self).wf(),
            answer is Ok ==> !exhausted(old(self)@),
        ensures
            final(self).wf(),
            match answer {
                Ok(bidi) => if old(self)@.full() {
                    &&& r == ControlMessage::Nak {
                        remote_id,
                        reason: Nak::ConnTableFull(CAPACITY),
                    }
                    &&& final(self)@ == old(self)@
                } else {
                    &&& r == ControlMessage::Ack { local_id: next_id(old(self)@), remote_id }
                    &&& final(self)@ == old(self)@.insert(
                        Socket { state: State::Open { remote_id }, bidi },
                    )
                },
                Err(reason) => {
                    &&& r == ControlMessage::Nak { remote_id, reason }
                    &&& final(self)@ == old(self)@
                },
            },
    {
        match answer {
            Ok(bidi) => self.accept(remote_id, bidi),
            Err(reason) => ControlMessage::Nak { remote_id, reason },
        }
    }

    /// Starts a locally-initiated connection, and returns the message to send in
    /// order to initiate it, unless the table is full.
    #[must_use]
    pub fn start_connecting(&mut self, identity: Identity, hello: Vec<u8>, bidi: C) -> (r: Option<
        ControlMessage,
    >)
        requires
            old(self).wf(),
            !exhausted(old(self)@),
        ensures
            final(self).wf(),
            match r {
                Some(message) => {
                    &&& !old(self)@.full()
                    &&& message == ControlMessage::Connect {
                        local_id: next_id(old(self)@),
                        identity,
                        hello,
                    }
                    &&& final(self)@ == old(self)@.insert(
                        Socket { state: State::Connecting, bidi },
                    )
                },
                None => old(self)@.full() && final(self)@ == old(self)@,
            },
    {
        match self.insert(Socket { state: State::Connecting, bidi }) {
            Some(local_id) => Some(ControlMessage::Connect { local_id, identity, hello }),
            None => None,
        }
    }

    /// Processes an acknowledgement for the locally-initiated connection
    /// `local_id`. One that is not waited for is answered with a reset.
    fn process_ack(&mut self, local_id: Id, remote_id: Id) -> (r: Result<(), Message>)
        requires
            old(self).wf(),
        ensures
            final(self).wf(),
            if holds(old(self)@, local_id) && socket_at(old(self)@, local_id).state is Connecting {
                &&& r is Ok
                &&& final(self)@ == old(self)@.replace(
                    local_id.index(),
                    Socket {
                        state: State::Open { remote_id },
                        bidi: socket_at(old(self)@, local_id).bidi,
                    },
                )
            } else {
                &&& r == Err::<(), Message>(
                    Message::Control(ControlMessage::Reset { remote_id }),
                )
                &&& final(self)@ == old(self)@
            },
    {
        match self.conns.get(local_id.to_index()) {
            Some(Socket { state: State::Connecting, .. }) => {},
            _ => {
                return Err(Message::reset(remote_id));
            },
        }
        if let Some(socket) = self.conns.get_mut(local_id.to_index()) {
            socket.state = State::Open { remote_id };
        }
        Ok(())
    }

    /// Accepts a remote-initiated connection with the provided `remote_id`.
    #[must_use]
    pub fn accept(&mut self, remote_id: Id, bidi: C) -> (r: ControlMessage)
        requires
            old(self).wf(),
            !exhausted(old(self)@),
        ensures
            final(self).wf(),
            if old(self)@.full() {
                &&& r == ControlMessage::Nak { remote_id, reason: Nak::ConnTableFull(CAPACITY) }
                &&& final(self)@ == old(self)@
            } else {
                &&& r == ControlMessage::Ack { local_id: next_id(old(self)@), remote_id }
                &&& final(self)@ == old(self)@.insert(
                    Socket { state: State::Open { remote_id }, bidi },
                )
            },
    {
        match self.insert(Socket { state: State::Open { remote_id }, bidi }) {
            // Accepted, we got a local ID!
            Some(local_id) => ControlMessage::Ack { local_id, remote_id },
            // Conn table is full, can't accept this stream.
            None => ControlMessage::Nak { remote_id, reason: Nak::ConnTableFull(CAPACITY) },
        }
    }

    /// Closes the connection with the given identifier, and returns whether there
    /// was one.
    pub fn close(&mut self, local_id: Id) -> (r: bool)
        requires
            old(self).wf(),
        ensures
            final(self).wf(),
            r == holds(old(self)@, local_id),
            final(self)@ == old(self)@.remove(local_id.index()),
    {
        match self.conns.remove(local_id.to_index()) {
            Some(_) => true,
            None => false,
        }
    }

    /// The handle of the local channel of a connection.
    pub fn bidi(&self, local_id: Id) -> (r: Option<&C>)
        ensures
            match r {
                Some(bidi) => holds(self@, local_id) && *bidi == socket_at(self@, local_id).bidi,
                None => !holds(self@, local_id),
            },
    {
        match self.conns.get(local_id.to_index()) {
            Some(socket) => Some(&socket.bidi),
            None => None,
        }
    }

    /// The number of connections.
    #[must_use]
    pub fn len(&self) -> (r: usize)
        requires
            self.wf(),
        ensures
            r == self@.values.len(),
    {
        self.conns.len()
    }

    /// Whether there is no connection.
    #[must_use]
    pub fn is_empty(&self) -> (r: bool)
        requires
            self.wf(),
        ensures
            r == (self@.values.len() == 0),
    {
        self.conns.len() == 0
    }

    /// The connections, in the order of their identifiers.
    pub fn iter_sockets(&self) -> (r: Vec<&Socket<C>>)
        requires
            self.wf(),
        ensures
            r@.map_values(|s: &Socket<C>| *s) == in_order(self@.values, CAPACITY as nat),
    {
        let mut sockets: Vec<&Socket<C>> = Vec::new();
        let mut i: usize = 0;
        while i < self.conns.capacity()
            invariant
                self.wf(),
                i <= CAPACITY,
                sockets@.map_values(|s: &Socket<C>| *s) == in_order(self@.values, i as nat),
            decreases CAPACITY - i,
        {
            if let Some(socket) = self.conns.get(i) {
                let ghost before = sockets@;
                sockets.push(socket);
                assert(sockets@.map_values(|s: &Socket<C>| *s) =~= before.map_values(
                    |s: &Socket<C>| *s,
                ).push(*socket));
            }
            i += 1;
        }
        sockets
    }

    /// Adds a connection, and returns its identifier, unless the table is full.
    #[must_use]
    fn insert(&mut self, socket: Socket<C>) -> (r: Option<Id>)
        requires
            old(self).wf(),
            !exhausted(old(self)@),
        ensures
            final(self).wf(),
            match r {
                Some(id) => {
                    &&& !old(self)@.full()
                    &&& id == next_id(old(self)@)
                    &&& id.index() == old(self)@.next()
                    &&& final(self)@ == old(self)@.insert(socket)
                },
                None => old(self)@.full() && final(self)@ == old(self)@,
            },
    {
        proof {
            self.conns.lemma_wf();
            self.lemma_valid();
            if self@.vacated.len() > 0 {
                assert(self@.vacated.contains(self@.vacated.last()));
            }
        }
        match self.conns.vacancy() {
            Some(_) => {
                let i: usize = self.conns.insert(socket);
                Some(Id::from_index(i))
            },
            None => None,
        }
    }
}

/// The whole of a connection request: the request is accepted by the server, and
/// its acknowledgement comes back. Then both ends have an established connection
/// under the other's identifier.
pub proof fn handshake_establishes_both_ends<C, D>(
    client: SlotsView<Socket<C>>,
    server: SlotsView<Socket<D>>,
    client_bidi: C,
    server_bidi: D,
)
    requires
        client.valid(),
        server.valid(),
        client.fresh < u16::MAX,
        server.fresh < u16::MAX,
        !client.full(),
        !server.full(),
        !exhausted(client),
        !exhausted(server),
    ensures
        ({
            let client_id = next_id(client);
            let server_id = next_id(server);
            let waiting = client.insert(Socket { state: State::Connecting, bidi: client_bidi });
            let accepted = server.insert(
                Socket { state: State::Open { remote_id: client_id }, bidi: server_bidi },
            );
            let ack = Message::Control(
                ControlMessage::Ack { local_id: server_id, remote_id: client_id },
            );
            let done = after_inbound(waiting, ack);
            &&& inbound(waiting, ack) is Done
            &&& holds(done, client_id)
            &&& socket_at(done, client_id).state == State::Open { remote_id: server_id }
            &&& holds(accepted, server_id)
            &&& socket_at(accepted, server_id).state == State::Open { remote_id: client_id }
        }),
{
    if client.vacated.len() > 0 {
        assert(client.vacated.contains(client.vacated.last()));
    }
    if server.vacated.len() > 0 {
        assert(server.vacated.contains(server.vacated.last()));
    }
    Id::lemma_of((client.next() + 1) as nat);
    Id::lemma_of((server.next() + 1) as nat);
}

/// A connection that is refused or reset is gone, and its identifier is the next
/// to be used. Data that still comes in on it is answered with a reset.
pub proof fn reset_ends_a_connection<C>(
    table: SlotsView<Socket<C>>,
    local_id: Id,
    remote_id: Id,
    data: Vec<u8>,
    reason: Nak,
)
    requires
        table.valid(),
        holds(table, local_id),
    ensures
        ({
            let reset = Message::Control(ControlMessage::Reset { remote_id: local_id });
            let nak = Message::Control(ControlMessage::Nak { remote_id: local_id, reason });
            let after = after_inbound(table, reset);
            &&& after_inbound(table, nak) == after
            &&& !holds(after, local_id)
            &&& next_id(after) == local_id
            &&& inbound(after, Message::Data { local_id: remote_id, remote_id: local_id, data })
                == Step::Reply(Message::Control(ControlMessage::Reset { remote_id }))
        }),
{
    Id::lemma_number(local_id, local_id);
}

/// Data is delivered to the connection that it is addressed to, whole, with the answer
/// to go back to where it came from. Without such a connection, it is answered with a
/// reset. Data changes nothing.
pub proof fn data_goes_to_the_connection_it_is_for<C>(
    table: SlotsView<Socket<C>>,
    from: Id,
    to: Id,
    data: Vec<u8>,
)
    ensures
        ({
            let message = Message::Data { local_id: from, remote_id: to, data };
            &&& after_inbound(table, message) == table
            &&& table.values.contains_key(to.number() - 1) ==> inbound(table, message)
                == Step::Deliver { local_id: to, remote_id: from, data }
            &&& !table.values.contains_key(to.number() - 1) ==> inbound(table, message)
                == Step::Reply(Message::Control(ControlMessage::Reset { remote_id: from }))
        }),
{
}

/// After a handshake, data passes in both directions: what either end sends under its
/// own identifier is delivered to the other end.
pub proof fn data_passes_after_a_handshake<C, D>(
    client: SlotsView<Socket<C>>,
    server: SlotsView<Socket<D>>,
    client_bidi: C,
    server_bidi: D,
    data: Vec<u8>,
)
    requires
        client.valid(),
        server.valid(),
        client.fresh < u16::MAX,
        server.fresh < u16::MAX,
        client.values.len() < client.capacity,
        server.values.len() < server.capacity,
        !exhausted(client),
        !exhausted(server),
    ensures
        ({
            let client_id = next_id(client);
            let server_id = next_id(server);
            let waiting = client.insert(Socket { state: State::Connecting, bidi: client_bidi });
            let accepted = server.insert(
                Socket { state: State::Open { remote_id: client_id }, bidi: server_bidi },
            );
            let done = after_inbound(
                waiting,
                Message::Control(
                    ControlMessage::Ack { local_id: server_id, remote_id: client_id },
                ),
            );
            &&& !client.values.contains_key(client_id.number() - 1)
            &&& done.values == client.values.insert(
                client_id.number() - 1,
                Socket { state: State::Open { remote_id: server_id }, bidi: client_bidi },
            )
            &&& !server.values.contains_key(server_id.number() - 1)
            &&& accepted.values == server.values.insert(
                server_id.number() - 1,
                Socket { state: State::Open { remote_id: client_id }, bidi: server_bidi },
            )
            &&& inbound(done, Message::Data { local_id: server_id, remote_id: client_id, data })
                == Step::Deliver { local_id: client_id, remote_id: server_id, data }
            &&& inbound(accepted, Message::Data { local_id: client_id, remote_id: server_id, data })
                == Step::Deliver { local_id: server_id, remote_id: client_id, data }
        }),
{
    let client_id = next_id(client);
    let server_id = next_id(server);
    let waiting = Socket { state: State::Connecting, bidi: client_bidi };
    crate::slots::new_value_gets_a_free_slot(client, waiting);
    crate::slots::new_value_gets_a_free_slot(
        server,
        Socket { state: State::Open { remote_id: client_id }, bidi: server_bidi },
    );
    handshake_establishes_both_ends(client, server, client_bidi, server_bidi);
    if client.vacated.len() > 0 {
        assert(client.vacated.contains(client.vacated.last()));
    }
    if server.vacated.len() > 0 {
        assert(server.vacated.contains(server.vacated.last()));
    }
    Id::lemma_of((client.next() + 1) as nat);
    Id::lemma_of((server.next() + 1) as nat);
    let done = after_inbound(
        client.insert(waiting),
        Message::Control(ControlMessage::Ack { local_id: server_id, remote_id: client_id }),
    );
    assert(done.values =~= client.values.insert(
        client_id.number() - 1,
        Socket { state: State::Open { remote_id: server_id }, bidi: client_bidi },
    ));
}

/// An acknowledgement opens the connection that it is addressed to, and no other, with
/// the connection of the remote that it came from, if the connection was waiting for it.
/// Otherwise it changes nothing, and is answered with a reset.
pub proof fn acknowledgements_open_the_connection_they_are_for<C>(
    table: SlotsView<Socket<C>>,
    from: Id,
    to: Id,
)
    ensures
        ({
            let ack = Message::Control(ControlMessage::Ack { local_id: from, remote_id: to });
            let i = to.number() - 1;
            let after = after_inbound(table, ack);
            let waits = table.values.contains_key(i) && table.values[i].state is Connecting;
            &&& waits ==> {
                &&& inbound(table, ack) is Done
                &&& after.values == table.values.insert(
                    i,
                    Socket { state: State::Open { remote_id: from }, bidi: table.values[i].bidi },
                )
                &&& after.vacated == table.vacated && after.fresh == table.fresh && after.capacity
                    == table.capacity
            }
            &&& !waits ==> after == table && inbound(table, ack) == Step::Reply(
                Message::Control(ControlMessage::Reset { remote_id: from }),
            )
        }),
{
}

/// A refusal and a reset remove the connection that they are addressed to, whatever its
/// state, and no other, and are not answered. A request is passed on to the service as
/// it is, and changes nothing.
pub proof fn other_messages_are_not_answered<C>(
    table: SlotsView<Socket<C>>,
    to: Id,
    reason: Nak,
    identity: Identity,
    hello: Vec<u8>,
)
    ensures
        ({
            let nak = Message::Control(ControlMessage::Nak { remote_id: to, reason });
            let reset = Message::Control(ControlMessage::Reset { remote_id: to });
            let connect = Message::Control(
                ControlMessage::Connect { local_id: to, identity, hello },
            );
            let i = to.number() - 1;
            let after = after_inbound(table, nak);
            &&& inbound(table, nak) is Done && inbound(table, reset) is Done
            &&& after_inbound(table, reset) == after
            &&& table.values.contains_key(i) ==> after.values == table.values.remove(i)
                && after.vacated == table.vacated.push(i) && after.fresh == table.fresh
                && after.capacity == table.capacity
            &&& !table.values.contains_key(i) ==> after == table
            &&& after_inbound(table, connect) == table
            &&& inbound(table, connect) == Step::Connect { remote_id: to, identity, hello }
        }),
{
}

/// There is no identifier left for a connection only if there is room, all slots ever
/// used are in use, and they are as many as there are identifiers to give. The next
/// connection gets the identifier of the next slot.
pub proof fn identifiers_run_out_last<C>(table: SlotsView<Socket<C>>)
    requires
        table.valid(),
        table.fresh < u16::MAX,
    ensures
        exhausted(table) <==> table.values.len() < table.capacity && table.values.len()
            == u16::MAX - 1,
        !exhausted(table) && table.values.len() < table.capacity ==> next_id(table).number() - 1
            == table.next(),
{
    if !exhausted(table) && table.values.len() < table.capacity {
        if table.vacated.len() > 0 {
            assert(table.vacated.contains(table.vacated.last()));
        }
        Id::lemma_of((table.next() + 1) as nat);
    }
}

/// Listing the connections lists as many as there are, and each one behind those in
/// lower slots.
pub proof fn connections_are_listed_in_order<S>(values: Map<int, S>, n: nat)
    requires
        values.dom().finite(),
    ensures
        in_order(values, n).len() == values.dom().filter(|i: int| 0 <= i < n).len(),
        forall|i: int| #[trigger]
            values.contains_key(i) && 0 <= i < n ==> ({
                let before = in_order(values, i as nat).len();
                before < in_order(values, n).len() && in_order(values, n)[before as int]
                    == values[i]
            }),
        forall|m: nat| #![trigger in_order(values, m)]
            m <= n ==> in_order(values, m).len() <= in_order(values, n).len(),
    decreases n,
{
    let all = in_order(values, n);
    let keys = values.dom().filter(|i: int| 0 <= i < n);
    if n > 0 {
        let before = (n - 1) as nat;
        connections_are_listed_in_order(values, before);
        let less = in_order(values, before);
        let fewer = values.dom().filter(|i: int| 0 <= i < before);
        values.dom().lemma_len_filter(|i: int| 0 <= i < before);
        if values.contains_key(n - 1) {
            assert(keys =~= fewer.insert(n - 1));
        } else {
            assert(keys =~= fewer);
        }
        assert forall|i: int| #[trigger] values.contains_key(i) && 0 <= i < n implies ({
            let below = in_order(values, i as nat).len();
            below < all.len() && all[below as int] == values[i]
        }) by {
            if i < before {
                assert(less[in_order(values, i as nat).len() as int] == values[i]);
            }
        }
    } else {
        assert(keys =~= Set::empty());
    }
}

} // verus!
