//! The connections of an interface, and what becomes of them when frames come
//! in and when frames are due to go out.
//!
//! The table does not touch the wire or the channels of the connections: it
//! holds handles to the channels, and hands back what is to be done with them.
use crate::codec::PostcardError;
use crate::decode::{DecodeError, DecodeErrorKind};
use crate::id::Id;
use crate::message::{Frame, Header, OutboundData, OutboundFrame, Rejection, Reset};
use crate::registry::Identity;
use crate::slots::Slots;
use vstd::prelude::*;

verus! {

/// The state of a connection.
pub enum State<P> {
    /// The connection is established; the identifier that the remote gave it.
    Open { remote_id: Id },
    /// The remote has not answered yet; the handle by which the answer is passed
    /// on to the local initiator.
    Connecting(P),
}

/// A connection: its state, the handle of its local channel, and the handle by
/// which its local user is told that it was reset.
pub struct Socket<C, P, R> {
    pub state: State<P>,
    pub channel: C,
    pub reset: R,
}

/// A request to connect to a remote service.
pub struct OutboundConnect<C, P, R> {
    /// The identity of the remote service to connect to.
    pub identity: Identity,
    /// The serialized greeting to send to the remote service.
    pub hello: Vec<u8>,
    /// The local channel to bind to the remote service.
    pub channel: C,
    /// The handle by which the answer of the remote service is passed on.
    pub rsp: P,
    /// The handle by which the user is told that the connection was reset.
    pub reset: R,
}

/// The table of the connections of an interface.
pub struct ConnTable<C, P, R, const CAPACITY: usize> {
    slots: Slots<Socket<C, P, R>>,
    /// A connection whose local channel was found closed, to be removed.
    dead_index: Option<Id>,
}

/// What is left to be done for an inbound frame.
#[allow(inconsistent_fields)]
pub enum Step<P, R> {
    /// Nothing is left to be done.
    Done,
    /// A frame is to be sent to the remote.
    Reply(OutboundFrame),
    /// The body of the frame is to be sent to the channel of connection
    /// `local_id`, and the outcome reported with [`ConnTable::delivered`].
    Deliver { local_id: Id, remote_id: Id },
    /// The local initiator is to be told that the connection is established, and
    /// the outcome reported with [`ConnTable::established`].
    Established { rsp: P, remote_id: Id },
    /// The local initiator is to be told that the connection was refused.
    Rejected { rsp: P, reason: Rejection },
    /// The local user is to be told that the connection was reset.
    Reset { reset: R, reason: Reset },
    /// The service with the given identity is to be asked for a connection, and
    /// the outcome reported with [`ConnTable::connected`].
    Connect { remote_id: Id, identity: Identity },
    /// There is no room for a connection. Whether there is a service with the
    /// given identity is to be found out, without asking it for a connection, and
    /// reported with [`ConnTable::refused`].
    NoRoom { remote_id: Id, identity: Identity },
}

/// What became of the body of a data frame.
pub enum Delivery {
    /// It was sent to the local channel.
    Sent,
    /// The local channel is closed.
    ChannelClosed,
    /// It could not be decoded.
    BadBody(PostcardError),
}

/// What is to be done to find the next frame that goes out.
pub enum Outbound {
    /// Ask the channel of a connection, once, what it has to send, and report the
    /// answer with [`ConnTable::next_outbound`].
    Ask(Id),
    /// Send a frame.
    Send(OutboundFrame),
    /// Nothing: no connection has anything to send.
    Idle,
}

/// What a local channel has to send.
pub enum Polled {
    /// Nothing yet.
    Pending,
    /// A serialized message.
    Data(Vec<u8>),
    /// Nothing ever more: the channel is closed.
    Closed,
}

// ---------------------------------------------------------------------------
// The table as a mathematical value
// ---------------------------------------------------------------------------

/// The contents of a connection table.
pub struct TableView<C, P, R> {
    /// The connections, by their slot.
    pub conns: Map<int, Socket<C, P, R>>,
    /// The slots of closed connections, the one to be used next at the end.
    pub vacated: Seq<int>,
    /// The number of slots ever used.
    pub fresh: int,
    /// The number of slots.
    pub capacity: nat,
    /// A connection to be removed.
    pub dead: Option<Id>,
}

/// A frame that ends a connection.
pub open spec fn reset_frame(remote_id: Id, reason: Reset) -> OutboundFrame {
    Frame { header: Header::Reset { remote_id, reason }, body: OutboundData::Empty }
}

/// A frame that refuses a connection.
pub open spec fn reject_frame(remote_id: Id, reason: Rejection) -> OutboundFrame {
    Frame { header: Header::Reject { remote_id, reason }, body: OutboundData::Empty }
}

/// A frame that accepts a connection.
pub open spec fn ack_frame(local_id: Id, remote_id: Id) -> OutboundFrame {
    Frame { header: Header::Ack { local_id, remote_id }, body: OutboundData::Empty }
}

/// The frame to send, if any, for what became of the body of a data frame.
pub open spec fn delivered_answer(remote_id: Id, outcome: Delivery) -> Option<OutboundFrame> {
    match outcome {
        Delivery::Sent => None,
        Delivery::ChannelClosed => Some(reset_frame(remote_id, Reset::BecauseISaidSo)),
        Delivery::BadBody(e) => Some(
            reset_frame(
                remote_id,
                Reset::YouDoneGoofed(DecodeError::Body(DecodeErrorKind::spec_from_postcard(e))),
            ),
        ),
    }
}

/// The frame to send, if any, for a connection that is established, as its local
/// initiator was still there or not.
pub open spec fn established_answer(remote_id: Id, notified: bool) -> Option<OutboundFrame> {
    if notified {
        None
    } else {
        Some(reset_frame(remote_id, Reset::BecauseISaidSo))
    }
}

/// The frame to send for a connection request for which there is no room, as there is
/// such a service or not.
pub open spec fn refused_answer(capacity: usize, remote_id: Id, found: bool) -> OutboundFrame {
    if found {
        reject_frame(remote_id, Rejection::ConnTableFull(capacity))
    } else {
        reject_frame(remote_id, Rejection::NotFound)
    }
}

impl<C, P, R> TableView<C, P, R> {
    /// The slots ever used are those of connections and those vacated.
    pub open spec fn valid(self) -> bool {
        &&& 0 <= self.fresh <= self.capacity
        &&& self.fresh < u16::MAX
        &&& self.vacated.no_duplicates()
        &&& forall|i: int| #[trigger] self.vacated.contains(i) ==> 0 <= i < self.fresh
        &&& forall|i: int| #[trigger]
            self.conns.contains_key(i) <==> 0 <= i < self.fresh && !self.vacated.contains(i)
        &&& self.conns.dom().finite()
        &&& self.conns.len() == self.fresh - self.vacated.len()
    }

    /// Whether there is a connection with the given identifier.
    pub open spec fn has(self, id: Id) -> bool {
        self.conns.contains_key(id.index())
    }

    /// The connection with the given identifier.
    pub open spec fn get(self, id: Id) -> Socket<C, P, R> {
        self.conns[id.index()]
    }

    /// Whether there is an established connection with the given identifiers.
    pub open spec fn is_open(self, local_id: Id, remote_id: Id) -> bool {
        self.has(local_id) && self.get(local_id).state == State::<P>::Open { remote_id }
    }

    /// Whether connection `remote_id` of the remote is established already. A
    /// connection that is to be removed does not count.
    pub open spec fn established_with(self, remote_id: Id) -> bool {
        exists|local_id: Id| #[trigger]
            self.is_open(local_id, remote_id) && self.dead != Some(local_id)
    }

    /// Whether no connection can be added.
    pub open spec fn full(self) -> bool {
        self.conns.len() == self.capacity
    }

    /// Whether there is room for a connection, but no identifier is left for it.
    pub open spec fn exhausted(self) -> bool {
        !self.full() && self.vacated.len() == 0 && self.fresh == u16::MAX - 1
    }

    /// The slot of the next connection.
    pub open spec fn next(self) -> int {
        if self.vacated.len() == 0 {
            self.fresh
        } else {
            self.vacated.last()
        }
    }

    /// The identifier of the next connection.
    pub open spec fn next_id(self) -> Id {
        Id::of((self.next() + 1) as nat)
    }

    /// The table with one more connection.
    pub open spec fn insert(self, socket: Socket<C, P, R>) -> TableView<C, P, R> {
        let conns = self.conns.insert(self.next(), socket);
        if self.vacated.len() == 0 {
            TableView { conns, fresh: self.fresh + 1, ..self }
        } else {
            TableView { conns, vacated: self.vacated.drop_last(), ..self }
        }
    }

    /// The table without the connection with the given identifier.
    pub open spec fn remove(self, id: Id) -> TableView<C, P, R> {
        if self.has(id) {
            TableView {
                conns: self.conns.remove(id.index()),
                vacated: self.vacated.push(id.index()),
                ..self
            }
        } else {
            self
        }
    }

    /// The table without the connection whose local channel was found closed.
    pub open spec fn cleaned(self) -> TableView<C, P, R> {
        match self.dead {
            Some(id) => TableView { dead: None, ..self.remove(id) },
            None => self,
        }
    }

    /// The table with connection `local_id` established.
    pub open spec fn open(self, local_id: Id, remote_id: Id) -> TableView<C, P, R> {
        TableView {
            conns: self.conns.insert(
                local_id.index(),
                Socket { state: State::Open { remote_id }, ..self.get(local_id) },
            ),
            ..self
        }
    }

    /// Whether a message from connection `remote_id` of the remote may go to
    /// connection `local_id`: it may not if that one is established with another
    /// connection of the remote.
    pub open spec fn accepts_data(self, local_id: Id, remote_id: Id) -> bool {
        self.has(local_id) && match self.get(local_id).state {
            State::Open { remote_id: other } => other == remote_id,
            State::Connecting(_) => true,
        }
    }

    /// The table after an inbound frame.
    pub open spec fn after_inbound(self, header: Header) -> TableView<C, P, R> {
        match header {
            Header::Connect { local_id, identity } => self,
            Header::Data { local_id, remote_id } => self,
            Header::Ack { local_id, remote_id } => if self.has(remote_id) && self.get(
                remote_id,
            ).state is Connecting {
                self.open(remote_id, local_id)
            } else {
                self
            },
            Header::Reject { remote_id, reason } => self.remove(remote_id),
            Header::Reset { remote_id, reason } => self.remove(remote_id),
        }
    }

    /// What is left to be done for an inbound frame. The identifier that the
    /// remote calls its remote one is the local one here.
    pub open spec fn inbound(self, header: Header) -> Step<P, R> {
        match header {
            Header::Connect { local_id, identity } => if self.established_with(local_id) {
                Step::Reply(reset_frame(local_id, Reset::YesSuchConn))
            } else if self.full() {
                Step::NoRoom { remote_id: local_id, identity }
            } else {
                Step::Connect { remote_id: local_id, identity }
            },
            Header::Data { local_id, remote_id } => if self.accepts_data(remote_id, local_id) {
                Step::Deliver { local_id: remote_id, remote_id: local_id }
            } else {
                Step::Reply(reset_frame(local_id, Reset::NoSuchConn))
            },
            Header::Ack { local_id, remote_id } => if self.has(remote_id) {
                match self.get(remote_id).state {
                    State::Open { remote_id: other } => Step::Reply(
                        reset_frame(local_id, Reset::YesSuchConn),
                    ),
                    State::Connecting(rsp) => Step::Established { rsp, remote_id: local_id },
                }
            } else {
                Step::Reply(reset_frame(local_id, Reset::NoSuchConn))
            },
            Header::Reject { remote_id, reason } => if self.has(remote_id) {
                match self.get(remote_id).state {
                    State::Open { remote_id: other } => Step::Done,
                    State::Connecting(rsp) => Step::Rejected { rsp, reason },
                }
            } else {
                Step::Done
            },
            Header::Reset { remote_id, reason } => if self.has(remote_id) {
                match self.get(remote_id).state {
                    State::Open { remote_id: other } => Step::Reset {
                        reset: self.get(remote_id).reset,
                        reason,
                    },
                    State::Connecting(rsp) => Step::Done,
                }
            } else {
                Step::Done
            },
        }
    }

    /// The frame to send for the answer of a local service to a connection request.
    pub open spec fn connected_answer(
        self,
        capacity: usize,
        remote_id: Id,
        answer: Result<(C, R), Rejection>,
    ) -> OutboundFrame {
        match answer {
            Ok(_) => if self.full() {
                reject_frame(remote_id, Rejection::ConnTableFull(capacity))
            } else {
                ack_frame(self.next_id(), remote_id)
            },
            Err(reason) => reject_frame(remote_id, reason),
        }
    }

    /// The table after the answer of a local service to a connection request.
    pub open spec fn after_connected(
        self,
        remote_id: Id,
        answer: Result<(C, R), Rejection>,
    ) -> TableView<C, P, R> {
        match answer {
            Ok((channel, reset)) => if self.full() {
                self
            } else {
                self.insert(Socket { state: State::Open { remote_id }, channel, reset })
            },
            Err(_) => self,
        }
    }

    /// The frame to send in order to initiate a connection, or, if there is no room for
    /// it, the answer to the local initiator.
    pub open spec fn connecting_frame(
        self,
        capacity: usize,
        connect: OutboundConnect<C, P, R>,
    ) -> Result<OutboundFrame, (P, Rejection)> {
        if self.full() {
            Err((connect.rsp, Rejection::ConnTableFull(capacity)))
        } else {
            Ok(
                Frame {
                    header: Header::Connect {
                        local_id: self.next_id(),
                        identity: connect.identity,
                    },
                    body: OutboundData::Hello(connect.hello),
                },
            )
        }
    }

    /// The table after a connection was initiated, if there is room for it.
    pub open spec fn after_connecting(self, connect: OutboundConnect<C, P, R>) -> TableView<
        C,
        P,
        R,
    > {
        if self.full() {
            self
        } else {
            self.insert(
                Socket {
                    state: State::Connecting(connect.rsp),
                    channel: connect.channel,
                    reset: connect.reset,
                },
            )
        }
    }

    /// Whether `out` may be sent to the remote for an inbound frame, be it at once, or
    /// after whatever happened outside of the table. What is done outside may take
    /// time: the table may be `later` by then.
    pub open spec fn may_answer(
        self,
        later: TableView<C, P, R>,
        capacity: usize,
        header: Header,
        out: OutboundFrame,
    ) -> bool {
        match self.inbound(header) {
            Step::Reply(frame) => out == frame,
            Step::Deliver { local_id, remote_id } => exists|outcome: Delivery|
                Some(out) == #[trigger] delivered_answer(remote_id, outcome),
            Step::Established { rsp, remote_id } => exists|notified: bool|
                Some(out) == #[trigger] established_answer(remote_id, notified),
            Step::Connect { remote_id, identity } => exists|answer: Result<(C, R), Rejection>|
                out == #[trigger] later.connected_answer(capacity, remote_id, answer),
            Step::NoRoom { remote_id, identity } => exists|found: bool|
                out == #[trigger] refused_answer(capacity, remote_id, found),
            Step::Done => false,
            Step::Rejected { rsp, reason } => false,
            Step::Reset { reset, reason } => false,
        }
    }

    /// Whether slot `i` holds an established connection.
    pub open spec fn open_at(self, i: int) -> bool {
        self.conns.contains_key(i) && self.conns[i].state is Open
    }

    /// Whether slot `i` is the first, from slot `from` on, that holds an established
    /// connection.
    pub open spec fn is_next_open(self, from: int, i: int) -> bool {
        &&& from <= i
        &&& self.open_at(i)
        &&& forall|j: int| from <= j < i ==> !#[trigger] self.open_at(j)
    }

    /// Whether no slot from slot `from` on holds an established connection.
    pub open spec fn none_open(self, from: int) -> bool {
        forall|j: int| from <= j ==> !#[trigger] self.open_at(j)
    }

    /// The frame to send, if any, when the channel of a connection has that to send.
    pub open spec fn polled_frame(self, local_id: Id, polled: Polled) -> Option<OutboundFrame> {
        if self.open_at(local_id.index()) {
            let remote_id = self.get(local_id).state->remote_id;
            match polled {
                Polled::Pending => None,
                Polled::Data(data) => Some(
                    Frame {
                        header: Header::Data { local_id, remote_id },
                        body: OutboundData::Data(data),
                    },
                ),
                Polled::Closed => Some(reset_frame(remote_id, Reset::BecauseISaidSo)),
            }
        } else {
            None
        }
    }

    /// The table after the channel of a connection had that to send.
    pub open spec fn after_polled(self, local_id: Id, polled: Polled) -> TableView<C, P, R> {
        if self.open_at(local_id.index()) && polled is Closed {
            TableView { dead: Some(local_id), ..self }
        } else {
            self
        }
    }

    /// The table after a step of the search for the next outbound frame.
    pub open spec fn after_outbound(self, answer: Option<(Id, Polled)>) -> TableView<C, P, R> {
        match answer {
            None => self.cleaned(),
            Some((local_id, polled)) => self.after_polled(local_id, polled),
        }
    }

    /// Whether `r` is to ask the first established connection from slot `from` on, or
    /// nothing if there is none.
    pub open spec fn asks(self, from: int, r: Outbound) -> bool {
        match r {
            Outbound::Ask(id) => id.valid() && self.is_next_open(from, id.index()),
            Outbound::Idle => self.none_open(from),
            Outbound::Send(_) => false,
        }
    }

    /// Whether `r` is what is to be done next in the search for the next outbound
    /// frame.
    pub open spec fn is_outbound(self, answer: Option<(Id, Polled)>, r: Outbound) -> bool {
        match answer {
            None => self.cleaned().asks(0, r),
            Some((local_id, polled)) => match self.polled_frame(local_id, polled) {
                Some(frame) => r == Outbound::Send(frame),
                None => self.asks(local_id.index() + 1, r),
            },
        }
    }
}

impl<C, P, R> TableView<C, P, R> {
    /// Whether a search for the next outbound frame may have gone so far as to ask
    /// these connections, one after the other, and to get these answers.
    pub open spec fn is_search(self, run: Seq<(Id, Polled)>) -> bool {
        &&& run.len() > 0 ==> self.is_outbound(None, Outbound::Ask(run[0].0))
        &&& forall|k: int|
            1 <= k < run.len() ==> self.cleaned().is_outbound(
                Some(run[k - 1]),
                Outbound::Ask((#[trigger] run[k]).0),
            )
    }

    /// Whether a search was to ask the connection in slot `j`, and got no message.
    pub open spec fn was_pending(self, run: Seq<(Id, Polled)>, j: int) -> bool {
        exists|k: int|
            0 <= k < run.len() && (#[trigger] run[k]).0.index() == j && run[k].1 is Pending
    }
}

// ---------------------------------------------------------------------------
// The table
// ---------------------------------------------------------------------------

impl<C, P, R, const CAPACITY: usize> View for ConnTable<C, P, R, CAPACITY> {
    type V = TableView<C, P, R>;

    closed spec fn view(&self) -> TableView<C, P, R> {
        TableView {
            conns: self.slots@,
            vacated: self.slots.vacated(),
            fresh: self.slots.fresh(),
            capacity: self.slots.spec_capacity(),
            dead: self.dead_index,
        }
    }
}

impl<C, P, R, const CAPACITY: usize> ConnTable<C, P, R, CAPACITY> {
    /// The table has the declared number of slots, and its slots are in order.
    pub closed spec fn wf(self) -> bool {
        &&& self.slots.wf()
        &&& self.slots.spec_capacity() == CAPACITY
        &&& self.slots.fresh() < u16::MAX
    }

    /// A table in order has valid contents.
    pub proof fn lemma_valid(self)
        requires
            self.wf(),
        ensures
            self@.valid(),
            self@.capacity == CAPACITY,
    {
        self.slots.lemma_wf();
    }

    /// A table without connections.
    #[must_use]
    pub fn new() -> (r: Self)
        ensures
            r.wf(),
            r@.conns == Map::<int, Socket<C, P, R>>::empty(),
            r@.vacated == Seq::<int>::empty(),
            r@.fresh == 0,
            r@.capacity == CAPACITY,
            r@.dead is None,
    {
        ConnTable { slots: Slots::new(CAPACITY), dead_index: None }
    }

    /// The connection with the given identifier.
    pub fn get(&self, id: Id) -> (r: Option<&Socket<C, P, R>>)
        ensures
            match r {
                Some(socket) => self@.has(id) && *socket == self@.get(id),
                None => !self@.has(id),
            },
    {
        self.slots.get(id.to_index())
    }

    /// The number of connections.
    pub fn len(&self) -> (r: usize)
        requires
            self.wf(),
        ensures
            r == self@.conns.len(),
    {
        self.slots.len()
    }

    /// Removes the connection whose local channel was found closed.
    fn cleanup_dead(&mut self)
        requires
            old(self).wf(),
        ensures
            final(self).wf(),
            final(self)@ == old(self)@.cleaned(),
    {
        if let Some(local_id) = self.dead_index {
            self.dead_index = None;
            let _ = self.remove(local_id);
        }
    }

    /// The established connection with the lowest identifier, among those whose slot
    /// is not below `from`.
    pub fn next_open(&self, from: usize) -> (r: Option<Id>)
        requires
            self.wf(),
        ensures
            match r {
                Some(id) => id.valid() && self@.is_next_open(from as int, id.index()),
                None => self@.none_open(from as int),
            },
    {
        proof {
            self.lemma_valid();
        }
        let mut idx: usize = from;
        while idx < self.slots.capacity()
            invariant
                self.wf(),
                self@.valid(),
                from <= idx,
                forall|j: int| from <= j < idx ==> !#[trigger] self@.open_at(j),
            decreases self.slots.spec_capacity() - idx,
        {
            // skip slots that are vacant, and connections that wait for an
            // answer of the remote.
            if let Some(Socket { state: State::Open { .. }, .. }) = self.slots.get(idx) {
                assert(self@.open_at(idx as int));
                return Some(Id::from_index(idx));
            }
            idx += 1;
        }
        None
    }

    /// Takes note of what the channel of a connection has to send, and returns the
    /// frame to send, if any. A connection whose channel is closed is marked, to be
    /// removed when the next frame is looked for.
    pub fn polled(&mut self, local_id: Id, polled: Polled) -> (r: Option<OutboundFrame>)
        requires
            old(self).wf(),
        ensures
            final(self).wf(),
            r == old(self)@.polled_frame(local_id, polled),
            final(self)@ == old(self)@.after_polled(local_id, polled),
    {
        let remote_id = match self.slots.get(local_id.to_index()) {
            Some(Socket { state: State::Open { remote_id }, .. }) => *remote_id,
            _ => {
                return None;
            },
        };
        match polled {
            // a local data frame is ready to send!
            Polled::Data(data) => Some(OutboundFrame::data(remote_id, local_id, data)),
            // the local stream has closed, so mark the socket as dead and tell the
            // remote that it is closed.
            Polled::Closed => {
                self.dead_index = Some(local_id);
                Some(OutboundFrame::reset(remote_id, Reset::BecauseISaidSo))
            },
            // nothing to do, move on to the next socket.
            Polled::Pending => None,
        }
    }

    /// Looks for the next outbound frame.
    ///
    /// Without an answer, the search starts, and the connection whose channel was
    /// found closed by the previous search is removed. The established connections are
    /// asked in the order of their identifiers, each once, until one has something to
    /// send.
    pub fn next_outbound(&mut self, answer: Option<(Id, Polled)>) -> (r: Outbound)
        requires
            old(self).wf(),
        ensures
            final(self).wf(),
            final(self)@ == old(self)@.after_outbound(answer),
            old(self)@.is_outbound(answer, r),
    {
        match answer {
            None => {
                self.cleanup_dead();
                match self.next_open(0) {
                    Some(id) => Outbound::Ask(id),
                    None => Outbound::Idle,
                }
            },
            Some((local_id, polled)) => match self.polled(local_id, polled) {
                Some(frame) => Outbound::Send(frame),
                None => match self.next_open(local_id.to_index() + 1) {
                    Some(id) => Outbound::Ask(id),
                    None => Outbound::Idle,
                },
            },
        }
    }

    /// Processes the header of an inbound frame, and returns what is left to be
    /// done for the frame.
    pub fn process_inbound(&mut self, header: Header) -> (r: Step<P, R>)
        requires
            old(self).wf(),
        ensures
            final(self).wf(),
            final(self)@ == old(self)@.after_inbound(header),
            r == old(self)@.inbound(header),
    {
        match header {
            Header::Data { local_id, remote_id } => {
                // the remote peer's remote ID is our local ID.
                let accepted = match self.slots.get(remote_id.to_index()) {
                    Some(socket) => match &socket.state {
                        State::Open { remote_id: other } => *other == local_id,
                        State::Connecting(_) => true,
                    },
                    None => false,
                };
                if accepted {
                    Step::Deliver { local_id: remote_id, remote_id: local_id }
                } else {
                    Step::Reply(OutboundFrame::reset(local_id, Reset::NoSuchConn))
                }
            },
            Header::Ack { local_id, remote_id } => self.process_ack(remote_id, local_id),
            Header::Reject { remote_id, reason } => match self.reject(remote_id) {
                Some(rsp) => Step::Rejected { rsp, reason },
                None => Step::Done,
            },
            Header::Reset { remote_id, reason } => match self.reset(remote_id) {
                Some(reset) => Step::Reset { reset, reason },
                None => Step::Done,
            },
            Header::Connect { local_id, identity } => {
                proof {
                    self.lemma_valid();
                }
                if self.is_established(local_id) {
                    return Step::Reply(OutboundFrame::reset(local_id, Reset::YesSuchConn));
                }
                match self.slots.vacancy() {
                    Some(_) => Step::Connect { remote_id: local_id, identity },
                    // a service is not troubled for a connection that cannot be.
                    None => Step::NoRoom { remote_id: local_id, identity },
                }
            },
        }
    }

    /// Whether connection `remote_id` of the remote is established already.
    fn is_established(&self, remote_id: Id) -> (r: bool)
        requires
            self.wf(),
        ensures
            r == self@.established_with(remote_id),
    {
        proof {
            self.lemma_valid();
        }
        let mut idx: usize = 0;
        while idx < self.slots.capacity()
            invariant
                self.wf(),
                self@.valid(),
                idx <= self.slots.spec_capacity(),
                forall|id: Id| #[trigger]
                    self@.is_open(id, remote_id) && self@.dead != Some(id) ==> id.index() >= idx,
            decreases self.slots.spec_capacity() - idx,
        {
            if let Some(Socket { state: State::Open { remote_id: other }, .. }) = self.slots.get(
                idx,
            ) {
                assert(self@.conns.contains_key(idx as int));
                if *other == remote_id {
                    let id = Id::from_index(idx);
                    let dead = match self.dead_index {
                        Some(dead) => dead == id,
                        None => false,
                    };
                    proof {
                        assert(self@.is_open(id, remote_id));
                        assert forall|at: Id| at.index() == idx implies at == id by {
                            Id::lemma_number(at, id);
                        }
                    }
                    if !dead {
                        return true;
                    }
                }
            }
            idx += 1;
        }
        proof {
            assert forall|id: Id| !(#[trigger] self@.is_open(id, remote_id) && self@.dead != Some(
                id,
            )) by {
                if self@.has(id) {
                    assert(id.index() < self@.fresh);
                }
            }
        }
        false
    }

    /// Takes note of what became of the body of a data frame, and returns the
    /// frame to send, if any: a connection whose channel is closed, or on which
    /// a message came that could not be decoded, is ended.
    pub fn delivered(&mut self, local_id: Id, remote_id: Id, outcome: Delivery) -> (r: Option<
        OutboundFrame,
    >)
        requires
            old(self).wf(),
        ensures
            final(self).wf(),
            r == delivered_answer(remote_id, outcome),
            final(self)@ == if outcome is Sent {
                old(self)@
            } else {
                old(self)@.remove(local_id)
            },
    {
        let reset = match outcome {
            Delivery::Sent => {
                return None;
            },
            Delivery::ChannelClosed => Reset::BecauseISaidSo,
            Delivery::BadBody(error) => Reset::bad_frame(error),
        };
        let _ = self.remove(local_id);
        Some(OutboundFrame::reset(remote_id, reset))
    }

    /// Starts a locally-initiated connection, and returns the frame to send in
    /// order to initiate it. If the table is full, the answer to the local
    /// initiator is returned instead.
    pub fn start_connecting(&mut self, connect: OutboundConnect<C, P, R>) -> (r: Result<
        OutboundFrame,
        (P, Rejection),
    >)
        requires
            old(self).wf(),
            !old(self)@.exhausted(),
        ensures
            final(self).wf(),
            r == old(self)@.connecting_frame(CAPACITY, connect),
            final(self)@ == old(self)@.after_connecting(connect),
    {
        let OutboundConnect { hello, identity, channel, rsp, reset } = connect;
        let local_id = match self.reserve_id() {
            Some(id) => id,
            None => {
                return Err((rsp, Rejection::ConnTableFull(CAPACITY)));
            },
        };
        self.insert_at(local_id, Socket { state: State::Connecting(rsp), channel, reset });
        Ok(OutboundFrame::connect(local_id, identity, hello))
    }

    /// Processes an acknowledgement for the locally-initiated connection
    /// `local_id`.
    fn process_ack(&mut self, local_id: Id, remote_id: Id) -> (r: Step<P, R>)
        requires
            old(self).wf(),
        ensures
            final(self).wf(),
            final(self)@ == old(self)@.after_inbound(
                Header::Ack { local_id: remote_id, remote_id: local_id },
            ),
            r == old(self)@.inbound(Header::Ack { local_id: remote_id, remote_id: local_id }),
    {
        match self.slots.get(local_id.to_index()) {
            None => {
                return Step::Reply(OutboundFrame::reset(remote_id, Reset::NoSuchConn));
            },
            // this socket is already open locally!
            Some(Socket { state: State::Open { .. }, .. }) => {
                return Step::Reply(OutboundFrame::reset(remote_id, Reset::YesSuchConn));
            },
            Some(_) => {},
        }
        let mut state = State::Open { remote_id };
        if let Some(socket) = self.slots.get_mut(local_id.to_index()) {
            core::mem::swap(&mut socket.state, &mut state);
        }
        match state {
            // tell the local connection initiator that they're okay
            State::Connecting(rsp) => Step::Established { rsp, remote_id },
            State::Open { .. } => Step::Done,
        }
    }

    /// Takes note of whether the local initiator of a connection that is now
    /// established was still there, and returns the frame to send, if any.
    pub fn established(&self, remote_id: Id, notified: bool) -> (r: Option<OutboundFrame>)
        ensures
            r == established_answer(remote_id, notified),
    {
        if notified {
            None
        } else {
            Some(OutboundFrame::reset(remote_id, Reset::BecauseISaidSo))
        }
    }

    /// Takes note of the answer of a local service to a connection request from
    /// the remote, and returns the frame to send.
    pub fn connected(&mut self, remote_id: Id, answer: Result<(C, R), Rejection>) -> (r:
        OutboundFrame)
        requires
            old(self).wf(),
            answer is Ok ==> !old(self)@.exhausted(),
        ensures
            final(self).wf(),
            r == old(self)@.connected_answer(CAPACITY, remote_id, answer),
            final(self)@ == old(self)@.after_connected(remote_id, answer),
    {
        match answer {
            Ok((channel, reset)) => self.accept(remote_id, channel, reset),
            Err(reason) => OutboundFrame::nak(remote_id, reason),
        }
    }

    /// The frame to send to the remote when there is no room for a connection that
    /// it asks for. That there is no such service comes first.
    pub fn refused(&self, remote_id: Id, found: bool) -> (r: OutboundFrame)
        ensures
            r == refused_answer(CAPACITY, remote_id, found),
    {
        if found {
            OutboundFrame::nak(remote_id, Rejection::ConnTableFull(CAPACITY))
        } else {
            OutboundFrame::nak(remote_id, Rejection::NotFound)
        }
    }

    /// Accepts a remote-initiated connection with the provided `remote_id`.
    #[must_use]
    fn accept(&mut self, remote_id: Id, channel: C, reset: R) -> (r: OutboundFrame)
        requires
            old(self).wf(),
            !old(self)@.exhausted(),
        ensures
            final(self).wf(),
            if old(self)@.full() {
                &&& r == reject_frame(remote_id, Rejection::ConnTableFull(CAPACITY))
                &&& final(self)@ == old(self)@
            } else {
                &&& r == ack_frame(old(self)@.next_id(), remote_id)
                &&& final(self)@ == old(self)@.insert(
                    Socket { state: State::Open { remote_id }, channel, reset },
                )
            },
    {
        let socket = Socket { state: State::Open { remote_id }, channel, reset };
        match self.insert(socket) {
            // Accepted, we got a local ID!
            Some(local_id) => OutboundFrame::ack(local_id, remote_id),
            // Conn table is full, can't accept this stream.
            None => OutboundFrame::nak(remote_id, Rejection::ConnTableFull(CAPACITY)),
        }
    }

    /// Removes a connection that was refused by the remote, and returns the
    /// handle by which the local initiator is to be told. An established
    /// connection has none.
    fn reject(&mut self, local_id: Id) -> (r: Option<P>)
        requires
            old(self).wf(),
        ensures
            final(self).wf(),
            final(self)@ == old(self)@.remove(local_id),
            r == if old(self)@.has(local_id) {
                match old(self)@.get(local_id).state {
                    State::Open { remote_id } => None,
                    State::Connecting(rsp) => Some(rsp),
                }
            } else {
                None
            },
    {
        match self.remove(local_id) {
            Some(Socket { state: State::Connecting(rsp), .. }) => Some(rsp),
            // the remote should have sent a RESET instead.
            Some(Socket { state: State::Open { .. }, .. }) => None,
            None => None,
        }
    }

    /// Removes a connection that was reset by the remote, and returns the handle
    /// by which the local user is to be told. A connection that was not yet
    /// established has none.
    fn reset(&mut self, local_id: Id) -> (r: Option<R>)
        requires
            old(self).wf(),
        ensures
            final(self).wf(),
            final(self)@ == old(self)@.remove(local_id),
            r == if old(self)@.has(local_id) && old(self)@.get(local_id).state is Open {
                Some(old(self)@.get(local_id).reset)
            } else {
                None
            },
    {
        match self.remove(local_id) {
            Some(Socket { state: State::Open { .. }, reset, .. }) => Some(reset),
            // the remote should have sent a REJECT instead.
            Some(Socket { state: State::Connecting(_), .. }) => None,
            None => None,
        }
    }

    /// Removes the connection with the given identifier, and returns it, if
    /// there is one.
    fn remove(&mut self, local_id: Id) -> (r: Option<Socket<C, P, R>>)
        requires
            old(self).wf(),
        ensures
            final(self).wf(),
            final(self)@ == old(self)@.remove(local_id),
            match r {
                Some(socket) => old(self)@.has(local_id) && socket == old(self)@.get(local_id),
                None => !old(self)@.has(local_id),
            },
    {
        self.slots.remove(local_id.to_index())
    }

    /// Adds a connection, and returns its identifier, unless the table is full.
    #[must_use]
    fn insert(&mut self, socket: Socket<C, P, R>) -> (r: Option<Id>)
        requires
            old(self).wf(),
            !old(self)@.exhausted(),
        ensures
            final(self).wf(),
            match r {
                Some(id) => {
                    &&& !old(self)@.full()
                    &&& id == old(self)@.next_id()
                    &&& final(self)@ == old(self)@.insert(socket)
                },
                None => old(self)@.full() && final(self)@ == old(self)@,
            },
    {
        match self.reserve_id() {
            Some(local_id) => {
                self.insert_at(local_id, socket);
                Some(local_id)
            },
            None => None,
        }
    }

    /// The identifier of the next connection, unless the table is full.
    #[must_use]
    fn reserve_id(&self) -> (r: Option<Id>)
        requires
            self.wf(),
            !self@.exhausted(),
        ensures
            match r {
                Some(id) => !self@.full() && id == self@.next_id() && id.index() == self@.next()
                    && id.valid(),
                None => self@.full(),
            },
    {
        proof {
            self.slots.lemma_wf();
            self.lemma_valid();
            if self@.vacated.len() > 0 {
                assert(self@.vacated.contains(self@.vacated.last()));
            }
        }
        match self.slots.vacancy() {
            Some(i) => Some(Id::from_index(i)),
            None => None,
        }
    }

    fn insert_at(&mut self, local_id: Id, socket: Socket<C, P, R>)
        requires
            old(self).wf(),
            !old(self)@.exhausted(),
            !old(self)@.full(),
            local_id.index() == old(self)@.next(),
        ensures
            final(self).wf(),
            final(self)@ == old(self)@.insert(socket),
    {
        proof {
            self.slots.lemma_wf();
        }
        let _ = self.slots.insert(socket);
    }
}

// ---------------------------------------------------------------------------
// Laws
// ---------------------------------------------------------------------------

/// A new connection gets an identifier that no connection has, and the other
/// connections stay as they are.
pub proof fn new_connection_gets_a_free_id<C, P, R>(
    table: TableView<C, P, R>,
    socket: Socket<C, P, R>,
)
    requires
        table.valid(),
        !table.full(),
        !table.exhausted(),
    ensures
        table.next_id().valid(),
        table.next_id().index() == table.next(),
        !table.has(table.next_id()),
        table.insert(socket).valid(),
        table.insert(socket).has(table.next_id()),
        table.insert(socket).get(table.next_id()) == socket,
        table.insert(socket).conns.len() == table.conns.len() + 1,
        forall|id: Id|
            id.valid() && id != table.next_id() ==> (#[trigger] table.insert(socket).has(id)
                <==> table.has(id)) && (table.has(id) ==> table.insert(socket).get(id)
                == table.get(id)),
{
    if table.vacated.len() > 0 {
        assert(table.vacated.contains(table.vacated.last()));
        let rest = table.vacated.drop_last();
        assert forall|i: int| #[trigger] rest.contains(i) <==> table.vacated.contains(i) && i
            != table.vacated.last() by {
            if rest.contains(i) {
                let k = rest.index_of(i);
                assert(table.vacated[k] == i);
            }
            if table.vacated.contains(i) && i != table.vacated.last() {
                let k = table.vacated.index_of(i);
                assert(rest[k] == i);
            }
        }
    }
    Id::lemma_of((table.next() + 1) as nat);
    assert forall|id: Id| id.valid() && id != table.next_id() implies id.index()
        != table.next() by {
        Id::lemma_number(id, table.next_id());
    }
}

/// A connection that is removed is gone, its identifier is the next to be used,
/// and the other connections stay as they are.
pub proof fn removed_id_is_used_next<C, P, R>(table: TableView<C, P, R>, id: Id)
    requires
        table.valid(),
        table.has(id),
    ensures
        table.remove(id).valid(),
        !table.remove(id).has(id),
        !table.remove(id).full(),
        !table.remove(id).exhausted(),
        table.remove(id).next_id() == id,
        table.remove(id).conns.len() == table.conns.len() - 1,
        forall|other: Id|
            other.index() != id.index() ==> (#[trigger] table.remove(id).has(other) <==> table.has(
                other,
            )) && (table.has(other) ==> table.remove(id).get(other) == table.get(other)),
{
    let i = id.index();
    let pushed = table.vacated.push(i);
    assert(!table.vacated.contains(i));
    assert forall|j: int| #[trigger] pushed.contains(j) <==> table.vacated.contains(j) || j
        == i by {
        if table.vacated.contains(j) {
            let k = table.vacated.index_of(j);
            assert(pushed[k] == j);
        }
        if j == i {
            assert(pushed[table.vacated.len() as int] == j);
        }
        if pushed.contains(j) && j != i {
            let k = pushed.index_of(j);
            assert(table.vacated[k] == j);
        }
    }
    Id::lemma_number(id, id);
    assert(table.conns.dom().contains(i));
    vstd::set_lib::lemma_len_subset(table.remove(id).conns.dom(), table.conns.dom());
    table_is_bounded(table);
}

/// A table has never more connections than slots.
pub proof fn table_is_bounded<C, P, R>(table: TableView<C, P, R>)
    requires
        table.valid(),
    ensures
        table.conns.len() <= table.capacity,
        table.conns.dom().finite(),
{
}

/// A table of less than 65535 slots never runs out of identifiers.
pub proof fn small_tables_are_never_exhausted<C, P, R>(table: TableView<C, P, R>)
    requires
        table.valid(),
        table.capacity < u16::MAX,
    ensures
        !table.exhausted(),
{
}

/// Whatever frame comes in, the table stays valid, no connection is added, and
/// only the connection that the frame is addressed to can change.
pub proof fn inbound_frames_touch_one_connection<C, P, R>(
    table: TableView<C, P, R>,
    header: Header,
)
    requires
        table.valid(),
    ensures
        table.after_inbound(header).valid(),
        table.after_inbound(header).conns.len() <= table.conns.len(),
        forall|id: Id|
            header@.link_id().remote != Some(id) && id.valid() && (match header@.link_id().remote {
                Some(to) => to.valid(),
                None => true,
            }) ==> (#[trigger] table.after_inbound(header).has(id) <==> table.has(id)) && (
            table.has(id) ==> table.after_inbound(header).get(id) == table.get(id)),
{
    match header@.link_id().remote {
        Some(to) => {
            if table.has(to) {
                removed_id_is_used_next(table, to);
            }
            assert forall|id: Id| header@.link_id().remote != Some(id) implies id.index()
                != to.index() by {
                Id::lemma_number(id, to);
            }
        },
        None => {},
    }
}

/// The whole of a connection request: the initiator's `CONNECT` frame is
/// accepted by the server, and its `ACK` frame comes back. Then both ends have an
/// established connection under the other's identifier, the initiator is told,
/// and messages pass in both directions.
pub proof fn handshake_establishes_both_ends<C1, P1, R1, C2, P2, R2>(
    client: TableView<C1, P1, R1>,
    server: TableView<C2, P2, R2>,
    rsp: P1,
    client_channel: C1,
    client_reset: R1,
    identity: Identity,
    server_channel: C2,
    server_reset: R2,
)
    requires
        client.valid(),
        server.valid(),
        !client.full(),
        !client.exhausted(),
        !server.full(),
        !server.exhausted(),
        !server.established_with(client.next_id()),
    ensures
        ({
            let client_id = client.next_id();
            let server_id = server.next_id();
            let waiting = client.insert(
                Socket {
                    state: State::Connecting(rsp),
                    channel: client_channel,
                    reset: client_reset,
                },
            );
            let accepted = server.insert(
                Socket {
                    state: State::Open { remote_id: client_id },
                    channel: server_channel,
                    reset: server_reset,
                },
            );
            let connect = Header::Connect { local_id: client_id, identity };
            let ack = Header::Ack { local_id: server_id, remote_id: client_id };
            let done = waiting.after_inbound(ack);
            &&& server.inbound(connect) == Step::<P2, R2>::Connect {
                remote_id: client_id,
                identity,
            }
            &&& waiting.inbound(ack) == Step::<P1, R1>::Established { rsp, remote_id: server_id }
            &&& done.is_open(client_id, server_id)
            &&& accepted.is_open(server_id, client_id)
            &&& done.inbound(Header::Data { local_id: server_id, remote_id: client_id })
                == Step::<P1, R1>::Deliver { local_id: client_id, remote_id: server_id }
            &&& accepted.inbound(Header::Data { local_id: client_id, remote_id: server_id })
                == Step::<P2, R2>::Deliver { local_id: server_id, remote_id: client_id }
        }),
{
    new_connection_gets_a_free_id(
        client,
        Socket { state: State::Connecting(rsp), channel: client_channel, reset: client_reset },
    );
    new_connection_gets_a_free_id(
        server,
        Socket {
            state: State::Open { remote_id: client.next_id() },
            channel: server_channel,
            reset: server_reset,
        },
    );
}

/// A search for the next outbound frame asks established connections only, in the
/// order of their identifiers, and so each of them once; and it leaves none out: every
/// established connection below the one asked last had nothing to send.
pub proof fn searches_ask_each_connection_once<C, P, R>(
    table: TableView<C, P, R>,
    run: Seq<(Id, Polled)>,
)
    requires
        table.is_search(run),
    ensures
        forall|k: int|
            0 <= k < run.len() ==> table.cleaned().open_at((#[trigger] run[k]).0.index()),
        forall|k: int, l: int|
            0 <= k < l < run.len() ==> (#[trigger] run[k]).0.index() < (
            #[trigger] run[l]).0.index(),
        run.len() > 0 ==> forall|j: int|
            0 <= j < run.last().0.index() && #[trigger] table.cleaned().open_at(j)
                ==> table.was_pending(run, j),
{
    assert forall|k: int| 0 <= k < run.len() implies table.cleaned().open_at(
        (#[trigger] run[k]).0.index(),
    ) by {
        lemma_search_step(table, run, k);
    }
    assert forall|k: int, l: int| 0 <= k < l < run.len() implies (#[trigger] run[k]).0.index() < (
    #[trigger] run[l]).0.index() by {
        lemma_search_ascends(table, run, k, l);
    }
    if run.len() > 0 {
        assert forall|j: int|
            0 <= j < run.last().0.index() && #[trigger] table.cleaned().open_at(
                j,
            ) implies table.was_pending(run, j) by {
            lemma_search_leaves_none_out(table, run, run.len() - 1, j);
        }
    }
}

/// One step of a search.
proof fn lemma_search_step<C, P, R>(table: TableView<C, P, R>, run: Seq<(Id, Polled)>, k: int)
    requires
        table.is_search(run),
        0 <= k < run.len(),
    ensures
        table.cleaned().open_at(run[k].0.index()),
        k == 0 ==> table.cleaned().is_next_open(0, run[0].0.index()),
        k > 0 ==> run[k - 1].1 is Pending && table.cleaned().is_next_open(
            run[k - 1].0.index() + 1,
            run[k].0.index(),
        ),
    decreases k,
{
    if k > 0 {
        lemma_search_step(table, run, k - 1);
        let (id, answer) = run[k - 1];
        assert(table.cleaned().is_outbound(Some(run[k - 1]), Outbound::Ask(run[k].0)));
        assert(table.cleaned().open_at(id.index()));
    }
}

proof fn lemma_search_ascends<C, P, R>(
    table: TableView<C, P, R>,
    run: Seq<(Id, Polled)>,
    k: int,
    l: int,
)
    requires
        table.is_search(run),
        0 <= k < l < run.len(),
    ensures
        run[k].0.index() < run[l].0.index(),
    decreases l,
{
    lemma_search_step(table, run, l);
    if k < l - 1 {
        lemma_search_ascends(table, run, k, l - 1);
    }
}

proof fn lemma_search_leaves_none_out<C, P, R>(
    table: TableView<C, P, R>,
    run: Seq<(Id, Polled)>,
    k: int,
    j: int,
)
    requires
        table.is_search(run),
        0 <= k < run.len(),
        0 <= j < run[k].0.index(),
        table.cleaned().open_at(j),
    ensures
        table.was_pending(run, j),
    decreases k,
{
    lemma_search_step(table, run, k);
    if k > 0 {
        if j < run[k - 1].0.index() {
            lemma_search_leaves_none_out(table, run, k - 1, j);
        } else {
            assert(run[k - 1].0.index() == j && run[k - 1].1 is Pending);
        }
    }
}

/// The frame that a search ends with is the answer of the established connection with
/// the lowest identifier that has anything to send: all below it had nothing. A search
/// that ends without a frame has asked every established connection, and none had
/// anything to send.
pub proof fn lowest_ready_connection_is_served<C, P, R>(
    table: TableView<C, P, R>,
    run: Seq<(Id, Polled)>,
    end: Outbound,
)
    requires
        table.is_search(run),
        if run.len() == 0 {
            table.is_outbound(None, end)
        } else {
            table.cleaned().is_outbound(Some(run.last()), end)
        },
    ensures
        end matches Outbound::Send(frame) ==> {
            let (id, answer) = run.last();
            &&& run.len() > 0
            &&& table.cleaned().open_at(id.index())
            &&& !(answer is Pending)
            &&& Some(frame) == table.cleaned().polled_frame(id, answer)
            &&& forall|j: int|
                0 <= j < id.index() && #[trigger] table.cleaned().open_at(j) ==> table.was_pending(
                    run,
                    j,
                )
        },
        end is Idle ==> forall|j: int|
            0 <= j && #[trigger] table.cleaned().open_at(j) ==> table.was_pending(run, j),
{
    searches_ask_each_connection_once(table, run);
    if run.len() > 0 {
        let last = run[run.len() - 1];
        assert(table.cleaned().open_at(last.0.index()));
        if end is Idle {
            assert forall|j: int| 0 <= j && #[trigger] table.cleaned().open_at(
                j,
            ) implies table.was_pending(run, j) by {
                if j == last.0.index() {
                    assert(run[run.len() - 1].1 is Pending);
                }
            }
        }
    }
}

/// Connections that are still being established are not asked, whatever they have to
/// send, and an answer in their name makes no frame.
pub proof fn connecting_connections_are_not_asked<C, P, R>(
    table: TableView<C, P, R>,
    run: Seq<(Id, Polled)>,
    id: Id,
    polled: Polled,
)
    requires
        table.is_search(run),
        table.cleaned().has(id),
        table.cleaned().get(id).state is Connecting,
    ensures
        forall|k: int| 0 <= k < run.len() ==> (#[trigger] run[k]).0.index() != id.index(),
        table.cleaned().polled_frame(id, polled) is None,
{
    searches_ask_each_connection_once(table, run);
}

/// Each answer goes to the connection of the remote that the frame came from, and
/// accepts, refuses or ends that connection. A refusal and a reset are never answered,
/// so that two peers cannot reset each other for ever.
pub proof fn answers_go_to_the_sender<C, P, R>(
    table: TableView<C, P, R>,
    later: TableView<C, P, R>,
    capacity: usize,
    header: Header,
    out: OutboundFrame,
)
    requires
        table.may_answer(later, capacity, header, out),
    ensures
        header is Data || header is Ack || header is Connect,
        out.header is Ack || out.header is Reject || out.header is Reset,
        header@.link_id().local is Some,
        out.header@.link_id().remote == header@.link_id().local,
        out.body is Empty,
{
}

/// A connection request of the remote, for a connection that is not established
/// already, is passed on to the service if there is room for the connection, and is
/// not if there is none.
pub proof fn full_tables_do_not_trouble_services<C, P, R>(
    table: TableView<C, P, R>,
    remote_id: Id,
    identity: Identity,
)
    requires
        table.valid(),
        !table.established_with(remote_id),
    ensures
        ({
            let connect = Header::Connect { local_id: remote_id, identity };
            &&& table.after_inbound(connect) == table
            &&& table.full() ==> table.inbound(connect) == Step::<P, R>::NoRoom {
                remote_id,
                identity,
            }
            &&& !table.full() ==> table.inbound(connect) == Step::<P, R>::Connect {
                remote_id,
                identity,
            }
        }),
{
}

/// A connection request that is refused: the initiator is told why, the
/// connection is gone, and its identifier is the next to be used.
pub proof fn refused_request_is_answered<C, P, R>(
    table: TableView<C, P, R>,
    rsp: P,
    channel: C,
    reset: R,
    reason: Rejection,
)
    requires
        table.valid(),
        !table.full(),
        !table.exhausted(),
    ensures
        ({
            let id = table.next_id();
            let waiting = table.insert(Socket { state: State::Connecting(rsp), channel, reset });
            let reject = Header::Reject { remote_id: id, reason };
            &&& waiting.inbound(reject) == Step::<P, R>::Rejected { rsp, reason }
            &&& !waiting.after_inbound(reject).has(id)
            &&& waiting.after_inbound(reject).next_id() == id
            &&& waiting.after_inbound(reject).conns == table.conns
        }),
{
    let socket = Socket { state: State::Connecting(rsp), channel, reset };
    new_connection_gets_a_free_id(table, socket);
    removed_id_is_used_next(table.insert(socket), table.next_id());
    assert(table.insert(socket).remove(table.next_id()).conns =~= table.conns);
}

/// A connection that is reset by the remote is gone, and its local user is told
/// why. Messages that still come in on it are answered with a reset.
pub proof fn reset_ends_a_connection<C, P, R>(
    table: TableView<C, P, R>,
    local_id: Id,
    remote_id: Id,
    reason: Reset,
)
    requires
        table.valid(),
        table.is_open(local_id, remote_id),
    ensures
        ({
            let frame = Header::Reset { remote_id: local_id, reason };
            let data = Header::Data { local_id: remote_id, remote_id: local_id };
            &&& table.inbound(frame) == Step::<P, R>::Reset {
                reset: table.get(local_id).reset,
                reason,
            }
            &&& !table.after_inbound(frame).has(local_id)
            &&& table.after_inbound(frame).inbound(data) == Step::<P, R>::Reply(
                reset_frame(remote_id, Reset::NoSuchConn),
            )
        }),
{
}

/// A message or an acknowledgement for a connection that does not exist is
/// answered with a reset that says so, and changes nothing. So is a message for a
/// connection that is established with another connection of the remote.
pub proof fn unknown_connections_are_reset<C, P, R>(
    table: TableView<C, P, R>,
    local_id: Id,
    remote_id: Id,
    other: Id,
)
    requires
        table.valid(),
        other != remote_id,
    ensures
        ({
            let data = Header::Data { local_id: remote_id, remote_id: local_id };
            let ack = Header::Ack { local_id: remote_id, remote_id: local_id };
            let reply = Step::<P, R>::Reply(reset_frame(remote_id, Reset::NoSuchConn));
            &&& table.after_inbound(data) == table
            &&& !table.has(local_id) ==> table.inbound(data) == reply && table.inbound(ack)
                == reply && table.after_inbound(ack) == table
            &&& table.is_open(local_id, other) ==> table.inbound(data) == reply
        }),
{
}

/// A request for a connection that is already established is answered with a reset
/// that says so, and changes nothing; the service is not asked.
pub proof fn established_connections_are_not_requested_again<C, P, R>(
    table: TableView<C, P, R>,
    local_id: Id,
    remote_id: Id,
    identity: Identity,
)
    requires
        table.valid(),
        table.is_open(local_id, remote_id),
        table.dead != Some(local_id),
    ensures
        ({
            let connect = Header::Connect { local_id: remote_id, identity };
            &&& table.after_inbound(connect) == table
            &&& table.inbound(connect) == Step::<P, R>::Reply(
                reset_frame(remote_id, Reset::YesSuchConn),
            )
        }),
{
}

/// An acknowledgement for a connection that is already established is answered
/// with a reset that says so, and changes nothing.
pub proof fn established_connections_are_not_acknowledged_again<C, P, R>(
    table: TableView<C, P, R>,
    local_id: Id,
    remote_id: Id,
    other: Id,
)
    requires
        table.valid(),
        table.is_open(local_id, other),
    ensures
        ({
            let ack = Header::Ack { local_id: remote_id, remote_id: local_id };
            &&& table.after_inbound(ack) == table
            &&& table.inbound(ack) == Step::<P, R>::Reply(
                reset_frame(remote_id, Reset::YesSuchConn),
            )
        }),
{
}

// ---------------------------------------------------------------------------
// What becomes of each kind of frame
// ---------------------------------------------------------------------------

/// A connection request is refused as already established only if some connection is
/// open with just the connection of the remote that the request is for, and that one is
/// not about to be removed. Which identifiers are in use on this side does not matter.
/// Otherwise the service is asked, or, if there is no room, looked for. A request
/// changes nothing.
pub proof fn requests_are_told_apart_by_remote_identifier<C, P, R>(
    table: TableView<C, P, R>,
    remote_id: Id,
    identity: Identity,
)
    requires
        table.valid(),
    ensures
        ({
            let request = Header::Connect { local_id: remote_id, identity };
            let taken = exists|i: int| #[trigger]
                table.conns.contains_key(i) && table.conns[i].state == (State::<P>::Open {
                    remote_id,
                }) && match table.dead {
                    Some(dead) => dead.number() != i + 1,
                    None => true,
                };
            &&& table.after_inbound(request) == table
            &&& taken ==> table.inbound(request) == Step::<P, R>::Reply(
                Frame {
                    header: Header::Reset { remote_id, reason: Reset::YesSuchConn },
                    body: OutboundData::Empty,
                },
            )
            &&& !taken && table.conns.len() < table.capacity ==> table.inbound(request) == Step::<
                P,
                R,
            >::Connect { remote_id, identity }
            &&& !taken && table.conns.len() >= table.capacity ==> table.inbound(request) == Step::<
                P,
                R,
            >::NoRoom { remote_id, identity }
        }),
{
    assert forall|i: int| #[trigger]
        table.conns.contains_key(i) && table.conns[i].state == (State::<P>::Open {
            remote_id,
        }) && (match table.dead {
            Some(dead) => dead.number() != i + 1,
            None => true,
        }) implies table.established_with(remote_id) by {
        let local_id = Id::of((i + 1) as nat);
        Id::lemma_of((i + 1) as nat);
        assert(table.is_open(local_id, remote_id) && table.dead != Some(local_id));
    }
    if table.established_with(remote_id) {
        let local_id = choose|local_id: Id| #[trigger]
            table.is_open(local_id, remote_id) && table.dead != Some(local_id);
        assert(table.conns.contains_key(local_id.number() - 1));
        match table.dead {
            Some(dead) => {
                Id::lemma_number(dead, local_id);
            },
            None => {},
        }
    }
}

/// Data is delivered to the connection that it is addressed to, with the answer to go
/// back to where it came from, if that connection is open with just the connection of
/// the remote that the data came from, or is still being established. Otherwise it is
/// answered with a reset. Data changes nothing.
pub proof fn data_goes_to_the_connection_it_is_for<C, P, R>(
    table: TableView<C, P, R>,
    from: Id,
    to: Id,
)
    ensures
        ({
            let data = Header::Data { local_id: from, remote_id: to };
            let i = to.number() - 1;
            let known = table.conns.contains_key(i) && (table.conns[i].state == (State::<P>::Open {
                remote_id: from,
            }) || table.conns[i].state is Connecting);
            &&& table.after_inbound(data) == table
            &&& known ==> table.inbound(data) == Step::<P, R>::Deliver {
                local_id: to,
                remote_id: from,
            }
            &&& !known ==> table.inbound(data) == Step::<P, R>::Reply(
                Frame {
                    header: Header::Reset { remote_id: from, reason: Reset::NoSuchConn },
                    body: OutboundData::Empty,
                },
            )
        }),
{
}

/// An acknowledgement opens the connection that it is addressed to, and no other, with
/// the connection of the remote that it came from, and its initiator is told, if the
/// connection was waiting for it. Otherwise it changes nothing, and is answered with a
/// reset that says whether there is such a connection.
pub proof fn acknowledgements_open_the_connection_they_are_for<C, P, R>(
    table: TableView<C, P, R>,
    from: Id,
    to: Id,
)
    ensures
        ({
            let ack = Header::Ack { local_id: from, remote_id: to };
            let i = to.number() - 1;
            let after = table.after_inbound(ack);
            let reset = |reason: Reset|
                Step::<P, R>::Reply(
                    Frame {
                        header: Header::Reset { remote_id: from, reason },
                        body: OutboundData::Empty,
                    },
                );
            &&& after.vacated == table.vacated && after.fresh == table.fresh && after.capacity
                == table.capacity && after.dead == table.dead
            &&& after.conns.dom() == table.conns.dom()
            &&& forall|j: int| #[trigger]
                table.conns.contains_key(j) && j != i ==> after.conns[j] == table.conns[j]
            &&& !table.conns.contains_key(i) ==> table.inbound(ack) == reset(Reset::NoSuchConn)
            &&& table.conns.contains_key(i) ==> match table.conns[i].state {
                State::Open { .. } => table.inbound(ack) == reset(Reset::YesSuchConn)
                    && after.conns[i] == table.conns[i],
                State::Connecting(rsp) => {
                    &&& table.inbound(ack) == Step::<P, R>::Established { rsp, remote_id: from }
                    &&& after.conns[i].state == (State::<P>::Open { remote_id: from })
                    &&& after.conns[i].channel == table.conns[i].channel
                    &&& after.conns[i].reset == table.conns[i].reset
                },
            }
        }),
{
    let after = table.after_inbound(Header::Ack { local_id: from, remote_id: to });
    assert(after.conns.dom() =~= table.conns.dom());
}

/// A refusal and a reset remove the connection that they are addressed to, whatever its
/// state, and no other; its slot is the next to be used. The initiator of a connection
/// that was not established is told why it was refused, and the user of one that was is
/// told why it was reset; other than that, nobody is told anything.
pub proof fn refusals_and_resets_remove_the_connection_they_are_for<C, P, R>(
    table: TableView<C, P, R>,
    to: Id,
    rejection: Rejection,
    reason: Reset,
)
    ensures
        ({
            let reject = Header::Reject { remote_id: to, reason: rejection };
            let reset = Header::Reset { remote_id: to, reason };
            let i = to.number() - 1;
            let after = table.after_inbound(reset);
            &&& table.after_inbound(reject) == after
            &&& after.fresh == table.fresh && after.capacity == table.capacity && after.dead
                == table.dead
            &&& !table.conns.contains_key(i) ==> after == table && table.inbound(reject) is Done
                && table.inbound(reset) is Done
            &&& table.conns.contains_key(i) ==> {
                &&& after.conns == table.conns.remove(i)
                &&& after.vacated == table.vacated.push(i)
                &&& match table.conns[i].state {
                    State::Open { .. } => table.inbound(reject) is Done && table.inbound(reset)
                        == Step::<P, R>::Reset { reset: table.conns[i].reset, reason },
                    State::Connecting(rsp) => table.inbound(reset) is Done && table.inbound(reject)
                        == Step::<P, R>::Rejected { rsp, reason: rejection },
                }
            }
        }),
{
}

/// What is left to be done after a frame was taken note of: data that was delivered
/// needs no answer; if the channel was closed, or the data could not be decoded, the
/// remote is told which. An initiator that is gone ends its connection. A service that
/// accepts gets the identifier of the next connection, unless the table is full; its
/// refusal is passed on. All of this goes to the connection of the remote that asked.
pub proof fn answers_say_what_happened<C, P, R>(
    table: TableView<C, P, R>,
    capacity: usize,
    remote_id: Id,
    error: PostcardError,
    accepted: (C, R),
    reason: Rejection,
)
    ensures
        ({
            let reset = |reason: Reset|
                Frame {
                    header: Header::Reset { remote_id, reason },
                    body: OutboundData::Empty,
                };
            let reject = |reason: Rejection|
                Frame {
                    header: Header::Reject { remote_id, reason },
                    body: OutboundData::Empty,
                };
            &&& delivered_answer(remote_id, Delivery::Sent) is None
            &&& delivered_answer(remote_id, Delivery::ChannelClosed) == Some(
                reset(Reset::BecauseISaidSo),
            )
            &&& delivered_answer(remote_id, Delivery::BadBody(error)) == Some(
                reset(
                    Reset::YouDoneGoofed(
                        DecodeError::Body(DecodeErrorKind::spec_from_postcard(error)),
                    ),
                ),
            )
            &&& established_answer(remote_id, true) is None
            &&& established_answer(remote_id, false) == Some(reset(Reset::BecauseISaidSo))
            &&& refused_answer(capacity, remote_id, true) == reject(
                Rejection::ConnTableFull(capacity),
            )
            &&& refused_answer(capacity, remote_id, false) == reject(Rejection::NotFound)
            &&& table.connected_answer(capacity, remote_id, Err(reason)) == reject(reason)
            &&& table.conns.len() == table.capacity ==> table.connected_answer(
                capacity,
                remote_id,
                Ok(accepted),
            ) == reject(Rejection::ConnTableFull(capacity))
            &&& table.conns.len() != table.capacity ==> table.connected_answer(
                capacity,
                remote_id,
                Ok(accepted),
            ) == (Frame {
                header: Header::Ack { local_id: table.next_id(), remote_id },
                body: OutboundData::Empty,
            })
        }),
{
}

// ---------------------------------------------------------------------------
// What goes out, and what is removed
// ---------------------------------------------------------------------------

/// What an established connection has to send becomes a frame under its own
/// identifiers: a message its body, and a closed channel a reset. Nothing to send, and
/// an answer in the name of any other connection, makes no frame. Only a closed channel
/// changes the table: the connection is marked, and nothing else.
pub proof fn answers_of_channels_become_frames<C, P, R>(
    table: TableView<C, P, R>,
    local_id: Id,
    data: Vec<u8>,
)
    ensures
        ({
            let i = local_id.number() - 1;
            &&& table.polled_frame(local_id, Polled::Pending) is None
            &&& table.after_polled(local_id, Polled::Pending) == table
            &&& table.after_polled(local_id, Polled::Data(data)) == table
            &&& match table.conns[i].state {
                State::Open { remote_id } => table.conns.contains_key(i) ==> {
                    let marked = table.after_polled(local_id, Polled::Closed);
                    &&& table.polled_frame(local_id, Polled::Data(data)) == Some(
                        Frame {
                            header: Header::Data { local_id, remote_id },
                            body: OutboundData::Data(data),
                        },
                    )
                    &&& table.polled_frame(local_id, Polled::Closed) == Some(
                        Frame {
                            header: Header::Reset { remote_id, reason: Reset::BecauseISaidSo },
                            body: OutboundData::Empty,
                        },
                    )
                    &&& marked.dead == Some(local_id)
                    &&& marked.conns == table.conns && marked.vacated == table.vacated
                        && marked.fresh == table.fresh && marked.capacity == table.capacity
                },
                State::Connecting(_) => true,
            }
            &&& !table.conns.contains_key(i) || table.conns[i].state is Connecting ==> {
                &&& table.polled_frame(local_id, Polled::Data(data)) is None
                &&& table.polled_frame(local_id, Polled::Closed) is None
                &&& table.after_polled(local_id, Polled::Closed) == table
            }
        }),
{
}

/// A connection whose channel was found closed is removed when the next frame is looked
/// for: then the table is as it was before, without that connection, without a mark, and
/// with its slot as the next to be used. No later search asks that connection.
pub proof fn closed_connections_are_removed<C, P, R>(
    table: TableView<C, P, R>,
    id: Id,
    run: Seq<(Id, Polled)>,
)
    requires
        table.valid(),
        table.conns.contains_key(id.number() - 1),
        table.conns[id.number() - 1].state is Open,
    ensures
        ({
            let i = id.number() - 1;
            let closed = table.after_polled(id, Polled::Closed);
            let after = closed.after_outbound(None);
            &&& after.valid()
            &&& after.conns == table.conns.remove(i)
            &&& after.conns.len() == table.conns.len() - 1
            &&& after.vacated == table.vacated.push(i)
            &&& after.fresh == table.fresh
            &&& after.capacity == table.capacity
            &&& after.dead is None
            &&& !after.conns.contains_key(i)
            &&& forall|j: int| #[trigger]
                table.conns.contains_key(j) && j != i ==> after.conns.contains_key(j)
                    && after.conns[j] == table.conns[j]
            &&& closed.is_search(run) ==> forall|k: int|
                0 <= k < run.len() ==> (#[trigger] run[k]).0.number() - 1 != i
        }),
{
    let i = id.number() - 1;
    let closed = table.after_polled(id, Polled::Closed);
    let after = closed.after_outbound(None);
    removed_id_is_used_next(table, id);
    assert(after.conns == table.conns.remove(i));
    assert(table.remove(id).valid());
    assert(after.valid());
    if closed.is_search(run) {
        searches_ask_each_connection_once(closed, run);
    }
}

/// A search that starts when no connection is marked leaves the table as it is; if one
/// is marked that is gone already, only the mark goes.
pub proof fn searches_remove_nothing_else<C, P, R>(table: TableView<C, P, R>)
    ensures
        table.dead is None ==> table.after_outbound(None) == table,
        table.dead matches Some(dead) ==> ({
            let i = dead.number() - 1;
            let after = table.after_outbound(None);
            &&& after.dead is None
            &&& after.fresh == table.fresh && after.capacity == table.capacity
            &&& after.conns == table.conns.remove(i)
            &&& table.conns.contains_key(i) ==> after.vacated == table.vacated.push(i)
            &&& !table.conns.contains_key(i) ==> after.vacated == table.vacated
        }),
{
    match table.dead {
        Some(dead) => {
            assert(table.conns.contains_key(dead.number() - 1) || table.conns.remove(
                dead.number() - 1,
            ) =~= table.conns);
        },
        None => {},
    }
}

/// A search asks the open connection with the lowest identifier first, and after one
/// that has nothing to send, the open one with the next higher identifier; it is over
/// when there is none. No open connection is passed over, and none that is not open is
/// asked.
pub proof fn open_connections_are_asked_in_turn<C, P, R>(
    table: TableView<C, P, R>,
    answer: Option<Id>,
    r: Outbound,
)
    requires
        match answer {
            Some(id) => table.is_outbound(Some((id, Polled::Pending)), r),
            None => table.is_outbound(None, r),
        },
    ensures
        ({
            let now = match answer {
                Some(_) => table.conns,
                None => match table.dead {
                    Some(dead) => table.conns.remove(dead.number() - 1),
                    None => table.conns,
                },
            };
            let from = match answer {
                Some(id) => id.number() as int,
                None => 0,
            };
            match r {
                Outbound::Ask(id) => {
                    &&& from <= id.number() - 1
                    &&& now.contains_key(id.number() - 1)
                    &&& now[id.number() - 1].state is Open
                    &&& forall|j: int| #[trigger]
                        now.contains_key(j) && from <= j < id.number() - 1 ==> now[j].state is Connecting
                },
                Outbound::Idle => forall|j: int| #[trigger]
                    now.contains_key(j) && from <= j ==> now[j].state is Connecting,
                Outbound::Send(_) => false,
            }
        }),
{
    searches_remove_nothing_else(table);
    let open = match answer {
        Some(_) => table,
        None => table.cleaned(),
    };
    let from = match answer {
        Some(id) => id.index() + 1,
        None => 0,
    };
    assert(open.asks(from, r));
    assert forall|j: int| #[trigger] open.conns.contains_key(j) implies (open.open_at(j)
        || open.conns[j].state is Connecting) by {}
}

// ---------------------------------------------------------------------------
// What happens to the slots
// ---------------------------------------------------------------------------

/// While there are fewer connections than slots, a new connection gets a slot that no
/// connection has: the one vacated last, or the lowest that was never used. The other
/// connections stay as they are. A connection that is removed leaves its slot for the
/// next one, and after that, the slots are used as if it had never been removed.
pub proof fn slots_are_used_again_last_first<C, P, R>(
    table: TableView<C, P, R>,
    socket: Socket<C, P, R>,
    id: Id,
)
    requires
        table.valid(),
        !table.exhausted(),
    ensures
        table.conns.len() < table.capacity ==> ({
            let i = table.next_id().number() - 1;
            let more = table.insert(socket);
            &&& 0 <= i < table.capacity
            &&& !table.conns.contains_key(i)
            &&& more.conns == table.conns.insert(i, socket)
            &&& more.capacity == table.capacity && more.dead == table.dead
            &&& table.vacated.len() > 0 ==> i == table.vacated.last() && more.vacated
                == table.vacated.drop_last() && more.fresh == table.fresh
            &&& table.vacated.len() == 0 ==> i == table.fresh && more.vacated == table.vacated
                && more.fresh == table.fresh + 1
        }),
        table.conns.contains_key(id.number() - 1) ==> ({
            let again = table.remove(id).insert(socket);
            &&& table.remove(id).next_id() == id
            &&& again.conns == table.conns.insert(id.number() - 1, socket)
            &&& again.vacated == table.vacated
            &&& again.fresh == table.fresh
        }),
        !table.conns.contains_key(id.number() - 1) ==> table.remove(id) == table,
{
    if table.conns.len() < table.capacity {
        new_connection_gets_a_free_id(table, socket);
    }
    if table.conns.contains_key(id.number() - 1) {
        removed_id_is_used_next(table, id);
        let again = table.remove(id).insert(socket);
        assert(table.remove(id).vacated.drop_last() =~= table.vacated);
        Id::lemma_number(id, id);
        assert(again.conns =~= table.conns.insert(id.number() - 1, socket));
    }
}

/// A local request goes out as it was made, under an identifier that no connection has,
/// and the connection waits under that identifier, with the channel and the handles of
/// the request. A request of the remote that a service accepts is open at once, under
/// such an identifier, with the channel that the service gave it; one that is refused
/// leaves no trace. If there is no room, nothing changes, and the initiator is told.
pub proof fn requests_become_connections<C, P, R>(
    table: TableView<C, P, R>,
    capacity: usize,
    connect: OutboundConnect<C, P, R>,
    remote_id: Id,
    channel: C,
    reset: R,
    reason: Rejection,
)
    requires
        table.valid(),
        !table.exhausted(),
    ensures
        ({
            let id = table.next_id();
            let i = id.number() - 1;
            let started = table.after_connecting(connect);
            let accepted = table.after_connected(remote_id, Ok((channel, reset)));
            &&& table.after_connected(remote_id, Err(reason)) == table
            &&& table.conns.len() < table.capacity ==> {
                &&& !table.conns.contains_key(i)
                &&& table.connecting_frame(capacity, connect) == Ok::<
                    OutboundFrame,
                    (P, Rejection),
                >(
                    Frame {
                        header: Header::Connect { local_id: id, identity: connect.identity },
                        body: OutboundData::Hello(connect.hello),
                    },
                )
                &&& started.conns == table.conns.insert(
                    i,
                    Socket {
                        state: State::Connecting(connect.rsp),
                        channel: connect.channel,
                        reset: connect.reset,
                    },
                )
                &&& accepted.conns == table.conns.insert(
                    i,
                    Socket { state: State::Open { remote_id }, channel, reset },
                )
                &&& started.vacated == accepted.vacated && started.fresh == accepted.fresh
                &&& started.dead == table.dead && accepted.dead == table.dead
                &&& started.capacity == table.capacity && accepted.capacity == table.capacity
                &&& started.valid() && accepted.valid()
            }
            &&& table.conns.len() >= table.capacity ==> {
                &&& table.connecting_frame(capacity, connect) == Err::<
                    OutboundFrame,
                    (P, Rejection),
                >((connect.rsp, Rejection::ConnTableFull(capacity)))
                &&& started == table
                &&& accepted == table
            }
        }),
{
    let waiting = Socket {
        state: State::Connecting(connect.rsp),
        channel: connect.channel,
        reset: connect.reset,
    };
    let open = Socket { state: State::<P>::Open { remote_id }, channel, reset };
    slots_are_used_again_last_first(table, waiting, remote_id);
    slots_are_used_again_last_first(table, open, remote_id);
    if table.conns.len() < table.capacity {
        new_connection_gets_a_free_id(table, waiting);
        new_connection_gets_a_free_id(table, open);
    }
}

/// There is no identifier left for a connection only if there is room, all slots ever
/// used are in use, and they are as many as there are identifiers to give.
pub proof fn identifiers_run_out_last<C, P, R>(table: TableView<C, P, R>)
    requires
        table.valid(),
    ensures
        table.full() <==> table.conns.len() >= table.capacity,
        table.exhausted() <==> table.conns.len() < table.capacity && table.conns.len()
            == u16::MAX - 1,
{
}

} // verus!
