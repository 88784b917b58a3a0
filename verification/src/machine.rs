//! The state machine that runs the connections of an interface over one wire.
//!
//! The machine decides; the wire, the local channels and the registry of local
//! services are outside of it. Each [`Event`] tells the machine what happened
//! there, and the [`Action`] that it answers with is what is to happen next.
use crate::conn_table::{
    delivered_answer, established_answer, refused_answer, ConnTable, Delivery, Outbound,
    OutboundConnect, Polled, Socket, Step, TableView,
};
use crate::codec::Codec;
use crate::id::Id;
use crate::message::{parse_frame, Frame, Header, OutboundFrame, Rejection, Reset};
use crate::registry::Identity;
use crate::tricky_pipe::mpsc::error::TryRecvError;
use crate::tricky_pipe::mpsc::{Elements, PipeView, SerReceiver, TrickyPipe};
use vstd::prelude::*;
use vstd::string::StringExecFns;

verus! {

/// The number of connections of an interface, unless another is chosen.
pub const DEFAULT_MAX_CONNS: usize = 512;

/// Why an interface stopped.
#[derive(Debug)]
pub struct InterfaceError<E> {
    kind: InterfaceErrorKind<E>,
    ctx: Option<&'static str>,
}

/// The kinds of errors that stop an interface.
#[derive(Debug, PartialEq, Eq)]
pub enum InterfaceErrorKind<E> {
    /// A wire error occurred while sending a message.
    Send(E),
    /// A wire error occurred while receiving a message.
    Recv(E),
    /// A protocol error occurred.
    Proto(&'static str),
}

/// Something that happened outside of the machine.
pub enum Event<C, P, R, E> {
    /// The wire received the bytes of a frame, or failed to.
    Received(Result<Vec<u8>, E>),
    /// A connection has a frame to send; see [`Machine::next_outbound`].
    Outbound(OutboundFrame),
    /// A local user asks for a connection, or none ever will again.
    Requested(Option<OutboundConnect<C, P, R>>),
    /// The wire sent a frame, or failed to.
    Sent { result: Result<(), E>, context: Option<&'static str> },
    /// A message was passed on to a local channel, or could not be.
    Delivered { local_id: Id, remote_id: Id, outcome: Delivery },
    /// A local initiator was told that its connection is established, or is gone.
    Established { remote_id: Id, notified: bool },
    /// A local service answered a connection request of the remote.
    Connected { remote_id: Id, answer: Result<(C, R), Rejection> },
    /// A service that the remote asked a connection to was looked for.
    LookedUp { remote_id: Id, found: bool },
}

/// What is to happen outside of the machine.
#[allow(inconsistent_fields)]
pub enum Action<P, R, E> {
    /// Wait for a frame from the wire, for a frame from a connection, or, while
    /// there can be any, for a connection request of a local user; the earlier of
    /// these comes first if several are there.
    Wait,
    /// Send a frame over the wire, and report it with the same context.
    Send { frame: OutboundFrame, context: Option<&'static str> },
    /// Send a message to the local channel of a connection, and report it.
    Deliver { local_id: Id, remote_id: Id, body: Vec<u8> },
    /// Tell a local initiator that its connection is established, and report it.
    Establish { rsp: P, remote_id: Id },
    /// Tell a local initiator that its connection was refused.
    Reject { rsp: P, reason: Rejection },
    /// Tell a local user that its connection was reset.
    Reset { reset: R, reason: Reset },
    /// Ask a local service for a connection, and report its answer.
    Connect { remote_id: Id, identity: Identity, hello: Vec<u8> },
    /// Find out whether there is a local service, and report it.
    LookUp { remote_id: Id, identity: Identity },
    /// Stop.
    Fail(InterfaceError<E>),
}

/// The state machine of an interface.
pub struct Machine<C, P, R, const MAX_CONNS: usize> {
    conn_table: ConnTable<C, P, R, MAX_CONNS>,
    conns_remaining: bool,
}

impl<E> InterfaceError<E> {
    /// The kind of the error.
    pub closed spec fn spec_kind(self) -> InterfaceErrorKind<E> {
        self.kind
    }

    /// What the interface was doing, if it is known.
    pub closed spec fn context(self) -> Option<Seq<char>> {
        match self.ctx {
            Some(ctx) => Some(ctx@),
            None => None,
        }
    }

    /// The wire could not send.
    pub fn send(error: E) -> (r: InterfaceError<E>)
        ensures
            r.spec_kind() == InterfaceErrorKind::Send(error),
            r.context() is None,
    {
        InterfaceError { kind: InterfaceErrorKind::Send(error), ctx: None }
    }

    /// The wire could not receive.
    pub fn recv(error: E) -> (r: InterfaceError<E>)
        ensures
            r.spec_kind() == InterfaceErrorKind::Recv(error),
            r.context() is None,
    {
        InterfaceError { kind: InterfaceErrorKind::Recv(error), ctx: None }
    }

    /// The same error, with what the interface was doing.
    pub fn with_context(self, ctx: &'static str) -> (r: InterfaceError<E>)
        ensures
            r.spec_kind() == self.spec_kind(),
            r.context() == Some(ctx@),
    {
        InterfaceError { kind: self.kind, ctx: Some(ctx) }
    }

    /// The kind of the error.
    #[must_use]
    pub fn kind(&self) -> (r: &InterfaceErrorKind<E>)
        ensures
            *r == self.spec_kind(),
    {
        &self.kind
    }
}

impl InterfaceErrorKind<String> {
    /// A description of the error.
    pub open spec fn text(self) -> Seq<char> {
        match self {
            InterfaceErrorKind::Send(e) => "wire send error: "@ + e@,
            InterfaceErrorKind::Recv(e) => "wire receive error: "@ + e@,
            InterfaceErrorKind::Proto(e) => "protocol error: "@ + e@,
        }
    }

    /// A description of the error.
    pub fn describe(&self) -> (r: String)
        ensures
            r@ == self.text(),
    {
        match self {
            InterfaceErrorKind::Send(e) => "wire send error: ".to_owned().concat(e.as_str()),
            InterfaceErrorKind::Recv(e) => "wire receive error: ".to_owned().concat(e.as_str()),
            InterfaceErrorKind::Proto(e) => "protocol error: ".to_owned().concat(e),
        }
    }
}

impl InterfaceError<String> {
    /// A description of the error, and of what the interface was doing.
    pub fn describe(&self) -> (r: String)
        ensures
            r@ == match self.context() {
                Some(ctx) => self.spec_kind().text() + " ("@ + ctx + ")"@,
                None => self.spec_kind().text(),
            },
    {
        let text = self.kind.describe();
        match self.ctx {
            Some(ctx) => text.concat(" (").concat(ctx).concat(")"),
            None => text,
        }
    }
}

impl<P, R, E> Action<P, R, E> {
    /// Whether the action is to send the given frame in answer to a frame that
    /// came in.
    pub open spec fn responds(self, frame: OutboundFrame) -> bool {
        &&& self matches Action::Send { frame: f, context }
        &&& f == frame
        &&& context matches Some(c)
        &&& c@ == "while sending inbound frame response (ACK/NAK)"@
    }

    /// Whether the action is to send the given frame, if any, in answer to a frame that
    /// came in, and else to wait.
    pub open spec fn may_respond(self, frame: Option<OutboundFrame>) -> bool {
        match frame {
            Some(frame) => self.responds(frame),
            None => self is Wait,
        }
    }

    /// Whether the action is what is left to be done for a frame with the given
    /// body, as the connection table has it.
    pub open spec fn follows(self, step: Step<P, R>, body: Seq<u8>) -> bool {
        match step {
            Step::Done => self is Wait,
            Step::Reply(frame) => self.responds(frame),
            Step::Deliver { local_id, remote_id } => self matches Action::Deliver {
                local_id: l,
                remote_id: r,
                body: b,
            } && l == local_id && r == remote_id && b@ == body,
            Step::Established { rsp, remote_id } => self == Action::<P, R, E>::Establish {
                rsp,
                remote_id,
            },
            Step::Rejected { rsp, reason } => self == Action::<P, R, E>::Reject { rsp, reason },
            Step::Reset { reset, reason } => self == Action::<P, R, E>::Reset { reset, reason },
            Step::Connect { remote_id, identity } => self matches Action::Connect {
                remote_id: r,
                identity: i,
                hello,
            } && r == remote_id && i == identity && hello@ == body,
            Step::NoRoom { remote_id, identity } => self == Action::<P, R, E>::LookUp {
                remote_id,
                identity,
            },
        }
    }
}

/// What the table leaves to be done is what the machine asks for: a frame to send is
/// sent as it is, with what the machine was doing; a body goes where the table says, whole;
/// and everybody who is to be told something is told just that.
pub proof fn machines_do_what_the_table_says<P, R, E>(
    action: Action<P, R, E>,
    step: Step<P, R>,
    body: Seq<u8>,
)
    requires
        action.follows(step, body),
    ensures
        match (step, action) {
            (Step::Done, Action::Wait) => true,
            (Step::Reply(frame), Action::Send { frame: sent, context: Some(context) }) => frame
                == sent && context@ == "while sending inbound frame response (ACK/NAK)"@,
            (
                Step::Deliver { local_id, remote_id },
                Action::Deliver { local_id: to, remote_id: from, body: sent },
            ) => local_id == to && remote_id == from && sent@ == body,
            (
                Step::Established { rsp, remote_id },
                Action::Establish { rsp: told, remote_id: from },
            ) => rsp == told && remote_id == from,
            (
                Step::Rejected { rsp, reason },
                Action::Reject { rsp: told, reason: why },
            ) => rsp == told && reason == why,
            (Step::Reset { reset, reason }, Action::Reset { reset: told, reason: why }) => reset
                == told && reason == why,
            (
                Step::Connect { remote_id, identity },
                Action::Connect { remote_id: from, identity: service, hello },
            ) => remote_id == from && identity == service && hello@ == body,
            (
                Step::NoRoom { remote_id, identity },
                Action::LookUp { remote_id: from, identity: service },
            ) => remote_id == from && identity == service,
            _ => false,
        },
{
}

/// An answer to a frame that came in is sent as it is, with what the machine was doing;
/// if there is none, the machine waits.
pub proof fn machines_send_answers<P, R, E>(action: Action<P, R, E>, answer: Option<OutboundFrame>)
    requires
        action.may_respond(answer),
    ensures
        match (answer, action) {
            (Some(frame), Action::Send { frame: sent, context: Some(context) }) => frame == sent
                && context@ == "while sending inbound frame response (ACK/NAK)"@,
            (None, Action::Wait) => true,
            _ => false,
        },
{
}

/// Whether `polled` is what the channel of a connection has to send: its oldest message,
/// and that it is closed only once it has none.
pub open spec fn says<T: Codec, E: Clone>(pipe: PipeView<T, E>, polled: Polled) -> bool {
    match polled {
        Polled::Data(bytes) => {
            &&& pipe.messages.len() > 0
            &&& bytes@ == T::encoding(pipe.messages[0]@)
        },
        Polled::Pending => pipe.starves(TryRecvError::Empty),
        Polled::Closed => pipe.messages.len() == 0 && pipe.recv_closed,
    }
}

/// Asks the channel of a connection what it has to send. A message is taken out of the
/// channel.
pub fn poll_channel<T: Codec, E: Clone, S: Elements<T>>(
    rx: &SerReceiver<E>,
    pipe: &mut TrickyPipe<T, E, S>,
) -> (r: Polled)
    requires
        old(pipe).wf(),
    ensures
        final(pipe).wf(),
        says(old(pipe)@, r),
        final(pipe)@ == if r is Data {
            old(pipe)@.pop()
        } else {
            old(pipe)@
        },
{
    proof {
        old(pipe).lemma_valid();
    }
    match rx.poll_recv(pipe) {
        Some(Ok(message)) => {
            let ghost idx = message.index();
            let bytes = message.to_vec();
            message.drop(pipe);
            assert(old(pipe)@.reserved.insert(idx).remove(idx) =~= old(pipe)@.reserved);
            Polled::Data(bytes)
        },
        Some(Err(_)) => Polled::Closed,
        None => Polled::Pending,
    }
}

/// If the channels of the connections are asked for what they have to send, the frame
/// that goes out holds the oldest message of the established connection with the lowest
/// identifier that has one or is closed, under the identifiers of that connection. All
/// established connections below it are open and have no message.
pub proof fn oldest_message_of_the_lowest_connection_goes_out<C, P, R, T: Codec, E: Clone>(
    table: TableView<C, P, R>,
    pipes: Map<int, PipeView<T, E>>,
    run: Seq<(Id, Polled)>,
    frame: OutboundFrame,
)
    requires
        table.is_search(run),
        run.len() > 0,
        table.cleaned().is_outbound(Some(run.last()), Outbound::Send(frame)),
        forall|k: int|
            0 <= k < run.len() ==> says(pipes[(#[trigger] run[k]).0.index()], run[k].1),
    ensures
        ({
            let local_id = run.last().0;
            let remote_id = table.cleaned().get(local_id).state->remote_id;
            let pipe = pipes[local_id.index()];
            &&& table.cleaned().open_at(local_id.index())
            &&& forall|j: int|
                0 <= j < local_id.index() && #[trigger] table.cleaned().open_at(j)
                    ==> pipes[j].starves(TryRecvError::Empty)
            &&& pipe.messages.len() > 0 ==> frame.header == Header::Data { local_id, remote_id }
                && frame.body@ == T::encoding(pipe.messages[0]@)
            &&& pipe.messages.len() == 0 ==> pipe.recv_closed && frame
                == crate::conn_table::reset_frame(remote_id, Reset::BecauseISaidSo)
        }),
{
    crate::conn_table::lowest_ready_connection_is_served(table, run, Outbound::Send(frame));
    let open = table.cleaned();
    assert(says(pipes[run[run.len() - 1].0.index()], run[run.len() - 1].1));
    assert forall|j: int| 0 <= j < run.last().0.index() && #[trigger] open.open_at(
        j,
    ) implies pipes[j].starves(TryRecvError::Empty) by {
        assert(table.was_pending(run, j));
        let k = choose|k: int|
            0 <= k < run.len() && (#[trigger] run[k]).0.index() == j && run[k].1 is Pending;
        assert(says(pipes[run[k].0.index()], run[k].1));
    }
}

impl<C, P, R, const MAX_CONNS: usize> Machine<C, P, R, MAX_CONNS> {
    /// The connections.
    pub closed spec fn table(self) -> TableView<C, P, R> {
        self.conn_table@
    }

    /// Whether local users may still ask for connections.
    pub closed spec fn spec_conns_remaining(self) -> bool {
        self.conns_remaining
    }

    /// The table of connections is in order.
    pub closed spec fn wf(self) -> bool {
        self.conn_table.wf()
    }

    /// A machine in order has valid connections, as many as it was made for at
    /// most.
    pub proof fn lemma_valid(self)
        requires
            self.wf(),
        ensures
            self.table().valid(),
            self.table().capacity == MAX_CONNS,
    {
        self.conn_table.lemma_valid();
    }

    /// A machine without connections.
    #[must_use]
    pub fn new() -> (r: Self)
        ensures
            r.wf(),
            r.table().conns == Map::<int, Socket<C, P, R>>::empty(),
            r.table().vacated == Seq::<int>::empty(),
            r.table().fresh == 0,
            r.table().capacity == MAX_CONNS,
            r.table().dead is None,
            r.spec_conns_remaining(),
    {
        Machine { conn_table: ConnTable::new(), conns_remaining: true }
    }

    /// Whether to wait for connection requests of local users. Once it is known
    /// that there will be no more, they must not wake the machine again.
    pub fn conns_remaining(&self) -> (r: bool)
        ensures
            r == self.spec_conns_remaining(),
    {
        self.conns_remaining
    }

    /// The connection with the given identifier.
    pub fn get(&self, id: Id) -> (r: Option<&Socket<C, P, R>>)
        ensures
            match r {
                Some(socket) => self.table().has(id) && *socket == self.table().get(id),
                None => !self.table().has(id),
            },
    {
        self.conn_table.get(id)
    }

    /// Looks for the next frame that a connection has to send: a message, or a reset
    /// because its local channel is closed. Without an answer, the search starts; then
    /// it goes on with the answer of each channel that is to be asked.
    pub fn next_outbound(&mut self, answer: Option<(Id, Polled)>) -> (r: Outbound)
        requires
            old(self).wf(),
        ensures
            final(self).wf(),
            final(self).spec_conns_remaining() == old(self).spec_conns_remaining(),
            final(self).table() == old(self).table().after_outbound(answer),
            old(self).table().is_outbound(answer, r),
    {
        self.conn_table.next_outbound(answer)
    }

    /// One step of the machine: takes note of what happened, and decides what
    /// is to happen next.
    pub fn step<E>(&mut self, event: Event<C, P, R, E>) -> (r: Action<P, R, E>)
        requires
            old(self).wf(),
            match event {
                Event::Requested(connect) => connect is Some ==> !old(self).table().exhausted(),
                Event::Connected { remote_id, answer } => answer is Ok
                    ==> !old(self).table().exhausted(),
                _ => true,
            },
        ensures
            final(self).wf(),
            final(self).spec_conns_remaining() == (old(self).spec_conns_remaining() && !(
            event matches Event::Requested(None))),
            // only a wire that fails stops the machine.
            r is Fail <==> match event {
                Event::Received(result) => result is Err,
                Event::Sent { result, context } => result is Err,
                _ => false,
            },
            match event {
                Event::Received(Ok(buf)) => match parse_frame(buf@) {
                    Ok((header, body)) => exists|h: Header| #[trigger]
                        h@ == header && final(self).table() == old(self).table().after_inbound(h)
                            && r.follows(old(self).table().inbound(h), body),
                    // a frame that cannot be decoded is passed over.
                    Err(_) => r is Wait && final(self).table() == old(self).table(),
                },
                Event::Received(Err(e)) => {
                    &&& r matches Action::Fail(error)
                    &&& error.spec_kind() == InterfaceErrorKind::Recv(e)
                    &&& error.context() is None
                    &&& final(self).table() == old(self).table()
                },
                Event::Outbound(frame) => {
                    &&& r == Action::<P, R, E>::Send { frame, context: None }
                    &&& final(self).table() == old(self).table()
                },
                Event::Requested(None) => r is Wait && final(self).table() == old(self).table(),
                Event::Requested(Some(connect)) => {
                    &&& match old(self).table().connecting_frame(MAX_CONNS, connect) {
                        Ok(frame) => {
                            &&& r matches Action::Send { frame: f, context }
                            &&& f == frame
                            &&& context matches Some(c)
                            &&& c@ == "while sending local-initiated CONNECT"@
                        },
                        Err((rsp, reason)) => r == Action::<P, R, E>::Reject { rsp, reason },
                    }
                    &&& final(self).table() == old(self).table().after_connecting(connect)
                },
                Event::Sent { result: Ok(_), context } => r is Wait && final(self).table() == old(
                    self).table(),
                Event::Sent { result: Err(e), context } => {
                    &&& r matches Action::Fail(error)
                    &&& error.spec_kind() == InterfaceErrorKind::Send(e)
                    &&& error.context() == match context {
                        Some(c) => Some(c@),
                        None => None,
                    }
                    &&& final(self).table() == old(self).table()
                },
                Event::Delivered { local_id, remote_id, outcome } => {
                    &&& r.may_respond(delivered_answer(remote_id, outcome))
                    &&& final(self).table() == if outcome is Sent {
                        old(self).table()
                    } else {
                        old(self).table().remove(local_id)
                    }
                },
                Event::Established { remote_id, notified } => {
                    &&& r.may_respond(established_answer(remote_id, notified))
                    &&& final(self).table() == old(self).table()
                },
                Event::Connected { remote_id, answer } => {
                    &&& r.responds(
                        old(self).table().connected_answer(MAX_CONNS, remote_id, answer),
                    )
                    &&& final(self).table() == old(self).table().after_connected(remote_id, answer)
                },
                Event::LookedUp { remote_id, found } => {
                    &&& r.responds(refused_answer(MAX_CONNS, remote_id, found))
                    &&& final(self).table() == old(self).table()
                },
            },
    {
        match event {
            // inbound frame from the wire.
            Event::Received(Ok(buf)) => {
                let frame = match Frame::<&[u8]>::from_bytes(buf.as_slice()) {
                    Ok(frame) => frame,
                    Err(_) => {
                        return Action::Wait;
                    },
                };
                let body = vstd::slice::slice_to_vec(frame.body);
                let header = frame.header;
                let ghost h = header;
                assert(h@ == header@);
                match self.conn_table.process_inbound(header) {
                    Step::Done => Action::Wait,
                    Step::Reply(frame) => Self::respond(frame),
                    Step::Deliver { local_id, remote_id } => Action::Deliver {
                        local_id,
                        remote_id,
                        body,
                    },
                    Step::Established { rsp, remote_id } => Action::Establish { rsp, remote_id },
                    Step::Rejected { rsp, reason } => Action::Reject { rsp, reason },
                    Step::Reset { reset, reason } => Action::Reset { reset, reason },
                    Step::Connect { remote_id, identity } => Action::Connect {
                        remote_id,
                        identity,
                        hello: body,
                    },
                    Step::NoRoom { remote_id, identity } => Action::LookUp { remote_id, identity },
                }
            },
            Event::Received(Err(e)) => Action::Fail(InterfaceError::recv(e)),
            // either a connection needs to send data, or a connection has
            // closed locally.
            Event::Outbound(frame) => Action::Send { frame, context: None },
            // locally-initiated connect request
            Event::Requested(Some(connect)) => match self.conn_table.start_connecting(connect) {
                Ok(frame) => Action::Send {
                    frame,
                    context: Some("while sending local-initiated CONNECT"),
                },
                Err((rsp, reason)) => Action::Reject { rsp, reason },
            },
            Event::Requested(None) => {
                self.conns_remaining = false;
                Action::Wait
            },
            Event::Sent { result: Ok(_), .. } => Action::Wait,
            Event::Sent { result: Err(e), context } => match context {
                Some(context) => Action::Fail(InterfaceError::send(e).with_context(context)),
                None => Action::Fail(InterfaceError::send(e)),
            },
            Event::Delivered { local_id, remote_id, outcome } => match self.conn_table.delivered(
                local_id,
                remote_id,
                outcome,
            ) {
                Some(frame) => Self::respond(frame),
                None => Action::Wait,
            },
            Event::Established { remote_id, notified } => match self.conn_table.established(
                remote_id,
                notified,
            ) {
                Some(frame) => Self::respond(frame),
                None => Action::Wait,
            },
            Event::Connected { remote_id, answer } => {
                let frame = self.conn_table.connected(remote_id, answer);
                Self::respond(frame)
            },
            Event::LookedUp { remote_id, found } => Self::respond(
                self.conn_table.refused(remote_id, found),
            ),
        }
    }

    fn respond<E>(frame: OutboundFrame) -> (r: Action<P, R, E>)
        ensures
            r.responds(frame),
    {
        Action::Send {
            frame,
            context: Some("while sending inbound frame response (ACK/NAK)"),
        }
    }
}

/// An error of the wire is described by whether the machine was sending or receiving, and
/// by what the wire says; any other by what is wrong.
pub proof fn errors_are_described(error: String, what: &'static str)
    ensures
        InterfaceErrorKind::Send(error).text() == "wire send error: "@ + error@,
        InterfaceErrorKind::Recv(error).text() == "wire receive error: "@ + error@,
        InterfaceErrorKind::<String>::Proto(what).text() == "protocol error: "@ + what@,
{
}

} // verus!
