//! A table of connections that only keeps track of their identifiers.
use crate::slots::{Slots, SlotsView};
use vstd::prelude::*;

verus! {

/// Identifies one end of a connection. Identifier 0 is the link-control channel.
pub type Id = usize;

/// The table of the connections.
pub struct ConnTable<const CAPACITY: usize> {
    conns: Slots<Socket>,
}

/// A connection.
#[derive(Debug)]
pub struct Socket {
    pub state: State,
}

/// The state of a connection.
#[derive(Debug)]
pub enum State {
    /// The connection is established; the identifier that the remote gave it.
    Open { remote_id: Id },
    /// The remote has not answered yet.
    Connecting,
}

/// A message about a connection.
#[derive(Debug, PartialEq, Eq, Structural, Clone, Copy)]
pub enum Frame {
    /// Requests a connection.
    Connect { local_id: Id },
    /// Accepts a connection.
    Ack { local_id: Id, remote_id: Id },
    /// Refuses a connection.
    Nak { remote_id: Id },
}

/// The table was full; the item that was to be added.
pub struct Full<T>(pub T);

impl<const CAPACITY: usize> View for ConnTable<CAPACITY> {
    type V = SlotsView<Socket>;

    /// The connections; identifier `n` belongs to slot `n - 1`.
    closed spec fn view(&self) -> SlotsView<Socket> {
        self.conns.contents()
    }
}

impl<const CAPACITY: usize> ConnTable<CAPACITY> {
    /// The table has the declared number of slots, and its slots are in order.
    pub closed spec fn wf(self) -> bool {
        self.conns.wf() && self.conns.spec_capacity() == CAPACITY
    }

    /// A table in order has valid contents.
    pub proof fn lemma_valid(self)
        requires
            self.wf(),
        ensures
            self@.valid(),
            self@.capacity == CAPACITY,
    {
        self.conns.lemma_valid();
    }

    /// A table without connections.
    #[must_use]
    pub fn new() -> (r: ConnTable<CAPACITY>)
        ensures
            r.wf(),
            r@ == SlotsView::<Socket>::unused(CAPACITY as nat),
    {
        ConnTable { conns: Slots::new(CAPACITY) }
    }

    /// Starts a connection, and returns the message to send, unless the table is
    /// full.
    #[must_use]
    pub fn connect(&mut self) -> (r: Option<Frame>)
        requires
            old(self).wf(),
        ensures
            final(self).wf(),
            r == connect_frame(old(self)@),
            final(self)@ == after_call(old(self)@, Call::Connect),
    {
        match self.insert(Socket { state: State::Connecting }) {
            Ok(local_id) => Some(Frame::Connect { local_id }),
            Err(_) => None,
        }
    }

    /// Accepts a connection of the remote, unless the table is full, and returns
    /// the message to send.
    #[must_use]
    pub fn accept(&mut self, remote_id: Id) -> (r: Frame)
        requires
            old(self).wf(),
        ensures
            final(self).wf(),
            r == accept_frame(old(self)@, remote_id),
            final(self)@ == after_call(old(self)@, Call::Accept(remote_id)),
    {
        match self.insert(Socket { state: State::Open { remote_id } }) {
            // Accepted, we got a local ID!
            Ok(local_id) => Frame::Ack { local_id, remote_id },
            // Conn table is full, can't accept this stream.
            Err(_) => Frame::Nak { remote_id },
        }
    }

    /// Closes the connection with the given identifier, and returns whether there
    /// was one. No connection has identifier 0, that of the link-control channel.
    pub fn close(&mut self, local_id: Id) -> (r: bool)
        requires
            old(self).wf(),
        ensures
            final(self).wf(),
            r == old(self)@.values.contains_key(local_id - 1),
            final(self)@ == after_call(old(self)@, Call::Close(local_id)),
    {
        if local_id == 0 {
            proof {
                self.conns.lemma_wf();
            }
            return false;
        }
        match self.conns.remove(local_id - 1) {
            Some(_) => true,
            None => false,
        }
    }

    /// The number of connections.
    #[must_use]
    pub fn len(&self) -> (r: usize)
        requires
            self.wf(),
        ensures
            r == self@.values.len(),
    {
        self.conns.len()
    }

    /// Whether there is no connection.
    #[must_use]
    pub fn is_empty(&self) -> (r: bool)
        requires
            self.wf(),
        ensures
            r == (self@.values.len() == 0),
    {
        self.conns.len() == 0
    }

    /// Adds a connection, unless the table is full, and returns its identifier.
    fn insert(&mut self, socket: Socket) -> (r: Result<Id, Full<Socket>>)
        requires
            old(self).wf(),
        ensures
            final(self).wf(),
            match r {
                Ok(id) => {
                    &&& !old(self)@.full()
                    &&& id == old(self)@.next() + 1
                    &&& final(self)@ == old(self)@.insert(socket)
                },
                Err(full) => {
                    &&& old(self)@.full()
                    &&& full.0 == socket
                    &&& final(self)@ == old(self)@
                },
            },
    {
        let capacity: usize = self.conns.capacity();
        proof {
            self.conns.lemma_wf();
        }
        match self.conns.vacancy() {
            Some(_) => {
                let i: usize = self.conns.insert(socket);
                Ok(i + 1)
            },
            None => Err(Full(socket)),
        }
    }
}

// ---------------------------------------------------------------------------
// Laws
// ---------------------------------------------------------------------------

/// A call that changes a table.
pub enum Call {
    Connect,
    Accept(Id),
    Close(Id),
}

/// The table after a call.
pub open spec fn after_call(table: SlotsView<Socket>, call: Call) -> SlotsView<Socket> {
    match call {
        Call::Connect => if table.full() {
            table
        } else {
            table.insert(Socket { state: State::Connecting })
        },
        Call::Accept(remote_id) => if table.full() {
            table
        } else {
            table.insert(Socket { state: State::Open { remote_id } })
        },
        Call::Close(local_id) => table.remove(local_id - 1),
    }
}

/// The message to send when a connection is started, unless the table is full.
pub open spec fn connect_frame(table: SlotsView<Socket>) -> Option<Frame> {
    if table.full() {
        None
    } else {
        Some(Frame::Connect { local_id: (table.next() + 1) as usize })
    }
}

/// The message to send when the remote asks for a connection.
pub open spec fn accept_frame(table: SlotsView<Socket>, remote_id: Id) -> Frame {
    if table.full() {
        Frame::Nak { remote_id }
    } else {
        Frame::Ack { local_id: (table.next() + 1) as usize, remote_id }
    }
}

/// A connection is started, or accepted, exactly while there are fewer than slots, under an
/// identifier that no connection has, and then it is there under that identifier, waiting
/// or open, and the others are as they were. If there is no room, the remote is refused,
/// and nothing changes. Closing removes just the connection with the identifier.
pub proof fn calls_do_what_they_say(table: SlotsView<Socket>, remote_id: Id, local_id: Id)
    requires
        table.valid(),
        table.capacity <= usize::MAX,
    ensures
        table.values.len() >= table.capacity ==> {
            &&& connect_frame(table) is None
            &&& accept_frame(table, remote_id) == Frame::Nak { remote_id }
            &&& after_call(table, Call::Connect) == table
            &&& after_call(table, Call::Accept(remote_id)) == table
        },
        table.values.len() < table.capacity ==> {
            &&& connect_frame(table) matches Some(Frame::Connect { local_id: id }) && {
                &&& 1 <= id <= table.capacity
                &&& !table.values.contains_key(id - 1)
                &&& after_call(table, Call::Connect).values == table.values.insert(
                    id - 1,
                    Socket { state: State::Connecting },
                )
            }
            &&& accept_frame(table, remote_id) matches Frame::Ack { local_id: id, remote_id: to }
                && {
                &&& to == remote_id
                &&& 1 <= id <= table.capacity
                &&& !table.values.contains_key(id - 1)
                &&& after_call(table, Call::Accept(remote_id)).values == table.values.insert(
                    id - 1,
                    Socket { state: State::Open { remote_id } },
                )
            }
        },
        after_call(table, Call::Close(local_id)).values == table.values.remove(local_id - 1),
        table.values.contains_key(local_id - 1) ==> after_call(
            table,
            Call::Close(local_id),
        ).next() == local_id - 1,
        !table.values.contains_key(local_id - 1) ==> after_call(table, Call::Close(local_id))
            == table,
{
    if table.values.len() < table.capacity {
        crate::slots::new_value_gets_a_free_slot(table, Socket { state: State::Connecting });
        crate::slots::new_value_gets_a_free_slot(
            table,
            Socket { state: State::Open { remote_id } },
        );
    }
    if table.values.contains_key(local_id - 1) {
        crate::slots::vacated_slot_is_filled_next(table, local_id - 1);
    } else {
        assert(table.values.remove(local_id - 1) =~= table.values);
    }
}

/// The table after calls, one after the other, on a table that was not used before.
pub open spec fn after_calls(capacity: nat, calls: Seq<Call>) -> SlotsView<Socket>
    decreases calls.len(),
{
    if calls.len() == 0 {
        SlotsView::unused(capacity)
    } else {
        after_call(after_calls(capacity, calls.drop_last()), calls.last())
    }
}

/// The identifiers that the calls handed out, and that were not closed since.
pub open spec fn in_use(capacity: nat, calls: Seq<Call>) -> Set<int>
    decreases calls.len(),
{
    if calls.len() == 0 {
        Set::empty()
    } else {
        let before = calls.drop_last();
        let table = after_calls(capacity, before);
        match calls.last() {
            Call::Close(local_id) => in_use(capacity, before).remove(local_id as int),
            _ => if table.full() {
                in_use(capacity, before)
            } else {
                in_use(capacity, before).insert(table.next() + 1)
            },
        }
    }
}

/// Whatever calls were made on a table, the connections in it are those whose
/// identifiers were handed out and not closed since, and its length is their number.
/// It is never more than the number of slots.
pub proof fn length_is_the_number_of_identifiers_in_use(capacity: nat, calls: Seq<Call>)
    ensures
        after_calls(capacity, calls).valid(),
        after_calls(capacity, calls).capacity == capacity,
        forall|id: int| #[trigger]
            in_use(capacity, calls).contains(id) <==> after_calls(
                capacity,
                calls,
            ).values.contains_key(id - 1),
        forall|id: int| #[trigger] in_use(capacity, calls).contains(id) ==> 1 <= id <= capacity,
        in_use(capacity, calls).finite(),
        after_calls(capacity, calls).values.len() == in_use(capacity, calls).len(),
        after_calls(capacity, calls).values.len() <= capacity,
    decreases calls.len(),
{
    if calls.len() > 0 {
        let before = calls.drop_last();
        length_is_the_number_of_identifiers_in_use(capacity, before);
        let table = after_calls(capacity, before);
        match calls.last() {
            Call::Close(local_id) => {
                if table.values.contains_key(local_id - 1) {
                    crate::slots::vacated_slot_is_filled_next(table, local_id - 1);
                    assert(in_use(capacity, before).contains(local_id as int));
                } else {
                    assert(!in_use(capacity, before).contains(local_id as int));
                    assert(in_use(capacity, calls) =~= in_use(capacity, before));
                }
            },
            Call::Connect => {
                if !table.full() {
                    crate::slots::new_value_gets_a_free_slot(
                        table,
                        Socket { state: State::Connecting },
                    );
                    assert(!in_use(capacity, before).contains(table.next() + 1));
                }
            },
            Call::Accept(remote_id) => {
                if !table.full() {
                    crate::slots::new_value_gets_a_free_slot(
                        table,
                        Socket { state: State::Open { remote_id } },
                    );
                    assert(!in_use(capacity, before).contains(table.next() + 1));
                }
            },
        }
    }
}

} // verus!
