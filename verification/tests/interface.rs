//! Tables of connections, the machines that run them, and clients.
use mgnp::codec::{Codec, PostcardError};
use mgnp::conn_table::{
    ConnTable, Delivery, Outbound, OutboundConnect, Polled, State, Step,
};
use mgnp::connector::{
    finish_connect, start_connect, Channels, ClientChannel, ConnectError, DataFrame, Ids,
    StaticChannels,
};
use mgnp::decode::{DecodeError, DecodeErrorKind};
use mgnp::discovery::EndpointsService;
use mgnp::id::Id;
use mgnp::machine::{
    poll_channel, Action, Event, InterfaceErrorKind, Machine, DEFAULT_MAX_CONNS,
};
use mgnp::message::{Header, InboundFrame, OutboundData, OutboundFrame, Rejection, Reset};
use mgnp::mini_reg::{self, do_send, ErasedConnectError, HelloReply, ServiceSocket};
use mgnp::registry::Identity;
use mgnp::req_rsp::{Client, DispatchError, Dispatched, Request, RequestError, Requested, Response};
use mgnp::tricky_pipe::bidi::BiDi;
use mgnp::tricky_pipe::mpsc::error::{TryRecvError, TrySendError};
use mgnp::tricky_pipe::mpsc::{Receiver, Sender, SerReceiver, TrickyPipe};
use mgnp::tricky_pipe::oneshot;
use mgnp::waiters::{WaitError, Waiters, WakeOutcome};

fn id(n: u16) -> Id {
    Id::new(n).unwrap()
}

fn hello_world_id() -> Identity {
    Identity::from_name::<EndpointsService>("hello-world")
}

/// The local ends of a connection to a service that greets.
struct Chan {
    inbound: TrickyPipe<String, Reset>,
    inbound_rx: Receiver<String, Reset>,
    outbound: TrickyPipe<String, Reset>,
    outbound_rx: SerReceiver<Reset>,
}

impl Chan {
    fn new() -> Chan {
        let mut inbound = TrickyPipe::new(8);
        let mut outbound = TrickyPipe::new(8);
        let inbound_rx = inbound.receiver().unwrap();
        let outbound_rx = outbound.ser_receiver("String").unwrap();
        Chan { inbound, inbound_rx, outbound, outbound_rx }
    }

    /// Answers each "hello" with "world".
    fn serve(&mut self) {
        while let Ok(msg) = self.inbound_rx.try_recv(&mut self.inbound) {
            assert_eq!(msg, "hello");
            let tx = self.outbound.sender();
            tx.try_send(&mut self.outbound, "world".to_string()).unwrap();
        }
    }
}

/// Runs a machine with a service that answers "hello" with "world".
struct Peer {
    machine: Machine<usize, &'static str, &'static str, 512>,
    chans: Vec<Chan>,
}

impl Peer {
    fn new() -> Peer {
        Peer { machine: Machine::new(), chans: vec![] }
    }

    /// Hands a frame to the machine, and returns the frames that it sends.
    fn receive(&mut self, bytes: Vec<u8>) -> Vec<Vec<u8>> {
        let mut sent = vec![];
        let mut event: Event<usize, &'static str, &'static str, ()> = Event::Received(Ok(bytes));
        loop {
            event = match self.machine.step(event) {
                Action::Wait => break,
                Action::Send { frame, context } => {
                    sent.push(frame.to_vec());
                    Event::Sent { result: Ok(()), context }
                }
                Action::Deliver { local_id, remote_id, body } => {
                    let chan = *self.machine.get(local_id).map(|s| &s.channel).unwrap();
                    let pipe = &mut self.chans[chan].inbound;
                    let tx = pipe.deser_sender("String");
                    let outcome = match tx.try_send(pipe, &body) {
                        Ok(()) => Delivery::Sent,
                        Err(mgnp::tricky_pipe::mpsc::error::SerTrySendError::Deserialize(e)) => {
                            Delivery::BadBody(e)
                        }
                        Err(_) => Delivery::ChannelClosed,
                    };
                    Event::Delivered { local_id, remote_id, outcome }
                }
                Action::Connect { remote_id, identity, hello: _ } => {
                    let answer = if identity == hello_world_id() {
                        self.chans.push(Chan::new());
                        Ok((self.chans.len() - 1, "reset"))
                    } else {
                        Err(Rejection::NotFound)
                    };
                    Event::Connected { remote_id, answer }
                }
                Action::LookUp { remote_id, identity } => {
                    Event::LookedUp { remote_id, found: identity == hello_world_id() }
                }
                Action::Establish { remote_id, .. } => {
                    Event::Established { remote_id, notified: true }
                }
                Action::Reject { .. } | Action::Reset { .. } => break,
                Action::Fail(_) => panic!("the wire did not fail"),
            };
        }
        sent
    }

    /// Returns the frame that goes out next, if any.
    fn outbound(&mut self) -> Option<Vec<u8>> {
        let mut answer = None;
        let frame = loop {
            answer = match self.machine.next_outbound(answer) {
                Outbound::Ask(id) => {
                    let chan = &mut self.chans[self.machine.get(id).unwrap().channel];
                    Some((id, poll_channel(&chan.outbound_rx, &mut chan.outbound)))
                }
                Outbound::Send(frame) => break frame,
                Outbound::Idle => return None,
            };
        };
        let action = self.machine.step::<()>(Event::Outbound(frame));
        match action {
            Action::Send { frame, context: None } => Some(frame.to_vec()),
            _ => panic!("an outbound frame is sent"),
        }
    }
}

fn one(frames: Vec<Vec<u8>>) -> Vec<u8> {
    assert_eq!(frames.len(), 1);
    frames.into_iter().next().unwrap()
}

fn connected_peer() -> Peer {
    let mut peer = Peer::new();
    let frame =
        one(peer.receive(OutboundFrame::connect(id(1), hello_world_id(), vec![]).to_vec()));
    let msg = InboundFrame::from_bytes(&frame[..]);
    assert_eq!(
        msg,
        Ok(InboundFrame {
            header: Header::Ack { local_id: id(1), remote_id: id(1) },
            body: &[]
        })
    );
    peer
}

#[test]
fn integration_reset_decode_error() {
    let mut peer = connected_peer();
    let mut out_frame = Header::Data { local_id: id(1), remote_id: id(1) }.to_vec();
    out_frame.extend(&[0xff, 0xff, 0xff, 0xff, 0xff, 0xff, 0xff, 0xff]);
    let frame = one(peer.receive(out_frame));
    let msg = InboundFrame::from_bytes(&frame[..]);
    assert_eq!(
        msg,
        Ok(InboundFrame {
            header: Header::Reset {
                remote_id: id(1),
                reason: Reset::YouDoneGoofed(DecodeError::Body(DecodeErrorKind::UnexpectedEnd))
            },
            body: &[]
        })
    );
    assert!(peer.machine.get(id(1)).is_none());
}

#[test]
fn integration_reset_no_such_conn() {
    let mut peer = connected_peer();
    let body = || "hello".to_string().to_vec();
    let out_frame = OutboundFrame::data(id(1), id(1), body()).to_vec();
    assert!(peer.receive(out_frame).is_empty());
    peer.chans[0].serve();
    let frame = peer.outbound().unwrap();
    let msg = InboundFrame::from_bytes(&frame[..]).unwrap();
    assert_eq!(msg.header, Header::Data { local_id: id(1), remote_id: id(1) });
    assert_eq!(mgnp::codec::from_bytes::<String>(msg.body), Ok("world".to_string()));

    // another message, with a bad conn ID
    let out_frame = OutboundFrame::data(id(666), id(1), body()).to_vec();
    let frame = one(peer.receive(out_frame));
    assert_eq!(
        InboundFrame::from_bytes(&frame[..]),
        Ok(InboundFrame {
            header: Header::Reset { remote_id: id(1), reason: Reset::NoSuchConn },
            body: &[]
        })
    );

    // another message, with a differently bad conn ID
    let out_frame = OutboundFrame::data(id(1), id(666), body()).to_vec();
    let frame = one(peer.receive(out_frame));
    assert_eq!(
        InboundFrame::from_bytes(&frame[..]),
        Ok(InboundFrame {
            header: Header::Reset { remote_id: id(666), reason: Reset::NoSuchConn },
            body: &[]
        })
    );
    assert!(peer.machine.get(id(1)).is_some());
}

#[test]
fn integration_basically_works() {
    let mut remote = Peer::new();
    let mut local = Peer::new();
    local.chans.push(Chan::new());
    let connect = OutboundConnect {
        identity: hello_world_id(),
        hello: vec![],
        channel: 0,
        rsp: "rsp",
        reset: "reset",
    };
    let connect = match local.machine.step::<()>(Event::Requested(Some(connect))) {
        Action::Send { frame, context } => {
            assert_eq!(context, Some("while sending local-initiated CONNECT"));
            frame.to_vec()
        }
        _ => panic!("a request is sent"),
    };
    let ack = one(remote.receive(connect));
    assert!(local.receive(ack).is_empty());

    // the client sends a request...
    let pipe = &mut local.chans[0].outbound;
    let tx = pipe.sender();
    tx.try_send(pipe, "hello".to_string()).unwrap();
    let data = local.outbound().unwrap();
    assert!(remote.receive(data).is_empty());
    remote.chans[0].serve();
    // ...and gets a response.
    let data = remote.outbound().unwrap();
    assert!(local.receive(data).is_empty());
    let chan = &mut local.chans[0];
    assert_eq!(chan.inbound_rx.try_recv(&mut chan.inbound), Ok("world".to_string()));
}

type Table<const N: usize> = ConnTable<char, u8, u16, N>;

fn request(n: u8) -> OutboundConnect<char, u8, u16> {
    OutboundConnect { identity: hello_world_id(), hello: vec![n], channel: 'c', rsp: n, reset: 9 }
}

#[test]
fn identifiers_are_reused() {
    let mut table: Table<2> = ConnTable::new();
    let first = table.start_connecting(request(1)).unwrap();
    assert_eq!(
        first.header,
        Header::Connect { local_id: id(1), identity: hello_world_id() }
    );
    assert_eq!(first.body, OutboundData::Hello(vec![1]));
    assert_eq!(
        table.connected(id(7), Ok(('d', 3))).header,
        Header::Ack { local_id: id(2), remote_id: id(7) }
    );
    assert_eq!(table.len(), 2);
    // the table is full.
    assert_eq!(
        table.start_connecting(request(2)).unwrap_err(),
        (2, Rejection::ConnTableFull(2))
    );
    assert_eq!(
        table.connected(id(8), Ok(('d', 3))).header,
        Header::Reject { remote_id: id(8), reason: Rejection::ConnTableFull(2) }
    );
    assert_eq!(
        table.connected(id(8), Err(Rejection::NotFound)).header,
        Header::Reject { remote_id: id(8), reason: Rejection::NotFound }
    );
    // a full table does not trouble the service.
    let connect = Header::Connect { local_id: id(8), identity: hello_world_id() };
    match table.process_inbound(connect) {
        Step::NoRoom { remote_id, .. } => assert_eq!(
            table.refused(remote_id, true).header,
            Header::Reject { remote_id: id(8), reason: Rejection::ConnTableFull(2) }
        ),
        _ => panic!("there is no room"),
    }
    assert_eq!(
        table.refused(id(8), false).header,
        Header::Reject { remote_id: id(8), reason: Rejection::NotFound }
    );
    // a refused connection is gone, and its initiator is told.
    match table.process_inbound(Header::Reject { remote_id: id(1), reason: Rejection::NotFound }) {
        Step::Rejected { rsp, reason } => assert_eq!((rsp, reason), (1, Rejection::NotFound)),
        _ => panic!("the initiator is told"),
    }
    assert!(table.get(id(1)).is_none());
    let again = table.start_connecting(request(3)).unwrap();
    assert_eq!(
        again.header,
        Header::Connect { local_id: id(1), identity: hello_world_id() }
    );
    // the connection that was closed last gives its identifier first.
    assert!(matches!(
        table.process_inbound(Header::Reset { remote_id: id(1), reason: Reset::GoAway }),
        Step::Done
    ));
    match table.process_inbound(Header::Reset { remote_id: id(2), reason: Reset::GoAway }) {
        Step::Reset { reset, reason } => assert_eq!((reset, reason), (3, Reset::GoAway)),
        _ => panic!("the user is told"),
    }
    assert_eq!(table.len(), 0);
    assert_eq!(
        table.start_connecting(request(4)).unwrap().header.link_id().local,
        Some(id(2))
    );
    assert_eq!(
        table.start_connecting(request(5)).unwrap().header.link_id().local,
        Some(id(1))
    );
}

fn reply<P, R>(step: Step<P, R>) -> Header {
    match step {
        Step::Reply(frame) => {
            assert_eq!(frame.body, OutboundData::Empty);
            frame.header
        }
        _ => panic!("there should be a reply"),
    }
}

#[test]
fn acknowledgements() {
    let mut table: Table<2> = ConnTable::new();
    let ack = |local, remote| Header::Ack { local_id: id(local), remote_id: id(remote) };
    let reset = |remote, reason| Header::Reset { remote_id: id(remote), reason };
    assert_eq!(reply(table.process_inbound(ack(5, 1))), reset(5, Reset::NoSuchConn));
    assert_eq!(reply(table.process_inbound(ack(5, 9))), reset(5, Reset::NoSuchConn));
    table.start_connecting(request(1)).unwrap();
    match table.process_inbound(ack(5, 1)) {
        Step::Established { rsp, remote_id } => assert_eq!((rsp, remote_id), (1, id(5))),
        _ => panic!("the initiator is told"),
    }
    assert!(matches!(table.get(id(1)).unwrap().state, State::Open { remote_id } if remote_id == id(5)));
    assert!(table.established(id(5), true).is_none());
    assert_eq!(
        table.established(id(5), false).unwrap().header,
        reset(5, Reset::BecauseISaidSo)
    );
    assert_eq!(reply(table.process_inbound(ack(6, 1))), reset(6, Reset::YesSuchConn));
    // an established connection is not refused.
    assert!(matches!(
        table.process_inbound(Header::Reject { remote_id: id(1), reason: Rejection::NotFound }),
        Step::Done
    ));
    assert_eq!(table.len(), 0);
    assert!(matches!(
        table.process_inbound(Header::Reject { remote_id: id(1), reason: Rejection::NotFound }),
        Step::Done
    ));
    assert!(matches!(table.process_inbound(reset(1, Reset::GoAway)), Step::Done));
}

#[test]
fn deliveries() {
    let mut table: Table<4> = ConnTable::new();
    table.connected(id(7), Ok(('a', 0)));
    table.connected(id(8), Ok(('b', 0)));
    match table.process_inbound(Header::Data { local_id: id(7), remote_id: id(1) }) {
        Step::Deliver { local_id, remote_id } => assert_eq!((local_id, remote_id), (id(1), id(7))),
        _ => panic!("the data is delivered"),
    }
    assert!(table.delivered(id(1), id(7), Delivery::Sent).is_none());
    assert_eq!(table.len(), 2);
    assert_eq!(
        table.delivered(id(1), id(7), Delivery::ChannelClosed).unwrap().header,
        Header::Reset { remote_id: id(7), reason: Reset::BecauseISaidSo }
    );
    assert_eq!(
        table
            .delivered(id(2), id(8), Delivery::BadBody(PostcardError::DeserializeBadUtf8))
            .unwrap()
            .header,
        Header::Reset {
            remote_id: id(8),
            reason: Reset::YouDoneGoofed(DecodeError::Body(DecodeErrorKind::BadUtf8))
        }
    );
    assert_eq!(table.len(), 0);
}

/// Searches for the next outbound frame, and returns it with the channels that were
/// asked.
fn search<const N: usize>(
    table: &mut Table<N>,
    poll: impl Fn(char) -> Polled,
) -> (Option<OutboundFrame>, String) {
    let mut asked = String::new();
    let mut answer = None;
    loop {
        answer = match table.next_outbound(answer) {
            Outbound::Ask(id) => {
                let channel = table.get(id).unwrap().channel;
                asked.push(channel);
                Some((id, poll(channel)))
            }
            Outbound::Send(frame) => return (Some(frame), asked),
            Outbound::Idle => return (None, asked),
        };
    }
}

#[test]
fn outbound_frames() {
    let mut table: Table<4> = ConnTable::new();
    table.start_connecting(request(1)).unwrap();
    table.connected(id(7), Ok(('a', 0)));
    table.connected(id(8), Ok(('b', 0)));
    table.connected(id(9), Ok(('x', 0)));
    // connections that are not established are not asked, and the others once each.
    assert_eq!(search(&mut table, |_| Polled::Pending), (None, "abx".to_string()));
    // the first that is ready is served.
    let (frame, asked) = search(&mut table, |c| match c {
        'a' => Polled::Pending,
        'b' => Polled::Data(vec![1, 2]),
        _ => Polled::Closed,
    });
    let frame = frame.unwrap();
    assert_eq!(frame.header, Header::Data { local_id: id(3), remote_id: id(8) });
    assert_eq!(frame.body, OutboundData::Data(vec![1, 2]));
    assert_eq!(asked, "ab");
    // an answer in the name of a connection that is not established makes no frame.
    assert!(table.polled(id(1), Polled::Data(vec![1])).is_none());
    assert!(table.polled(id(30), Polled::Closed).is_none());
    assert_eq!(table.next_open(0), Some(id(2)));
    assert_eq!(table.next_open(2), Some(id(3)));
    assert_eq!(table.next_open(4), None);
    let (frame, asked) =
        search(&mut table, |c| if c == 'x' { Polled::Closed } else { Polled::Pending });
    assert_eq!(
        frame.unwrap().header,
        Header::Reset { remote_id: id(9), reason: Reset::BecauseISaidSo }
    );
    assert_eq!(asked, "abx");
    // a connection that was closed is removed when the next frame is asked for.
    assert!(table.get(id(4)).is_some());
    assert_eq!(search(&mut table, |_| Polled::Pending), (None, "ab".to_string()));
    assert!(table.get(id(4)).is_none());
    assert_eq!(table.len(), 3);
}

#[test]
fn channels_are_asked_for_their_oldest_message() {
    let mut chan = TrickyPipe::<u16, Reset>::new(4);
    let rx = chan.ser_receiver("u16").unwrap();
    let tx = chan.sender();
    assert!(matches!(poll_channel(&rx, &mut chan), Polled::Pending));
    tx.try_send(&mut chan, 300).unwrap();
    tx.try_send(&mut chan, 7).unwrap();
    assert!(tx.close_with_error(&mut chan, Reset::GoAway));
    assert!(matches!(poll_channel(&rx, &mut chan), Polled::Data(d) if d == vec![172, 2]));
    assert!(matches!(poll_channel(&rx, &mut chan), Polled::Data(d) if d == vec![7]));
    assert!(matches!(poll_channel(&rx, &mut chan), Polled::Closed));
    assert_eq!(chan.remaining(), 4);
}

// Two messages are queued, and a second connection has one: they go out in order.
#[test]
fn oldest_messages_of_the_lowest_connection_go_out_first() {
    let mut peer = connected_peer();
    let chan = &mut peer.chans[0];
    let tx = chan.outbound.sender();
    for msg in ["m1", "m2"] {
        tx.try_send(&mut chan.outbound, msg.to_string()).unwrap();
    }
    let first = peer.outbound().unwrap();
    let second = peer.outbound().unwrap();
    assert!(first.ends_with(b"m1"));
    assert!(second.ends_with(b"m2"));
    assert!(peer.outbound().is_none());
}

#[test]
fn refused_requests_need_no_identifier() {
    let mut table: Table<1> = ConnTable::new();
    assert_eq!(
        table.connected(id(1), Err(Rejection::ServiceRejected)).header,
        Header::Reject { remote_id: id(1), reason: Rejection::ServiceRejected }
    );
    assert_eq!(table.len(), 0);
}

#[test]
fn machines_report_errors() {
    let mut machine: Machine<char, u8, u16, DEFAULT_MAX_CONNS> = Machine::new();
    match machine.step(Event::Received(Err("dead"))) {
        Action::Fail(e) => assert_eq!(e.kind(), &InterfaceErrorKind::Recv("dead")),
        _ => panic!("the machine stops"),
    }
    match machine.step(Event::Sent { result: Err("dead".to_string()), context: Some("ctx") }) {
        Action::Fail(e) => assert_eq!(e.describe(), "wire send error: dead (ctx)"),
        _ => panic!("the machine stops"),
    }
    match machine.step(Event::Sent { result: Err("dead".to_string()), context: None }) {
        Action::Fail(e) => assert_eq!(e.describe(), "wire send error: dead"),
        _ => panic!("the machine stops"),
    }
    // a frame that cannot be decoded is passed over.
    assert!(matches!(machine.step::<()>(Event::Received(Ok(vec![77]))), Action::Wait));
    assert!(machine.conns_remaining());
    assert!(matches!(machine.step::<()>(Event::Requested(None)), Action::Wait));
    assert!(!machine.conns_remaining());
    // responses have a context.
    let data = OutboundFrame::data(id(1), id(2), vec![]).to_vec();
    match machine.step::<()>(Event::Received(Ok(data))) {
        Action::Send { frame, context } => {
            assert_eq!(
                frame.header,
                Header::Reset { remote_id: id(2), reason: Reset::NoSuchConn }
            );
            assert_eq!(context, Some("while sending inbound frame response (ACK/NAK)"));
        }
        _ => panic!("a response is sent"),
    }
    match machine.step::<()>(Event::Established { remote_id: id(3), notified: false }) {
        Action::Send { frame, .. } => assert_eq!(
            frame.header,
            Header::Reset { remote_id: id(3), reason: Reset::BecauseISaidSo }
        ),
        _ => panic!("a response is sent"),
    }
    // a full table refuses local requests.
    let mut machine: Machine<char, u8, u16, 0> = Machine::new();
    match machine.step::<()>(Event::Requested(Some(request(1)))) {
        Action::Reject { rsp, reason } => {
            assert_eq!((rsp, reason), (1, Rejection::ConnTableFull(0)))
        }
        _ => panic!("the request is refused"),
    }
}

#[test]
fn waiters_wait_for_different_numbers() {
    let mut waiters = Waiters::new();
    waiters.enqueue(3, 'a').unwrap();
    waiters.enqueue(4, 'b').unwrap();
    assert_eq!(waiters.enqueue(3, 'c'), Err((WaitError::Duplicate, 'c')));
    assert!(matches!(waiters.wake(3), WakeOutcome::Woke('a')));
    assert!(matches!(waiters.wake(3), WakeOutcome::NoMatch));
    waiters.enqueue(5, 'd').unwrap();
    assert_eq!(waiters.close(), vec![(4, 'b'), (5, 'd')]);
    assert_eq!(waiters.enqueue(6, 'e'), Err((WaitError::Closed, 'e')));
    assert!(matches!(waiters.wake(4), WakeOutcome::Closed));
}

/// A connection to a service that echoes requests.
struct Conn {
    tx: Sender<Request<u64>, Reset>,
    tx_pipe: TrickyPipe<Request<u64>, Reset>,
    rx: Receiver<Response<u64>, Reset>,
    rx_pipe: TrickyPipe<Response<u64>, Reset>,
}

fn conn(capacity: u8) -> Conn {
    let mut tx_pipe = TrickyPipe::new(capacity);
    let mut rx_pipe = TrickyPipe::new(capacity);
    let (tx, rx) = (tx_pipe.sender(), rx_pipe.receiver().unwrap());
    Conn { tx, tx_pipe, rx, rx_pipe }
}

#[test]
fn req_rsp() {
    let mut conn = conn(64);
    let mut client: Client<u64> = Client::new();
    assert_eq!(client.start_dispatch(), Ok(()));
    assert_eq!(client.start_dispatch(), Err(DispatchError::AlreadyRunning));
    let service = conn.tx_pipe.receiver().unwrap();
    let back = conn.rx_pipe.sender();
    // the service answers the requests in another order than they were made.
    let mut held = vec![];
    let mut answered = 0;
    for val in (10..100).rev() {
        match client.request(&conn.tx, &mut conn.tx_pipe, val, val) {
            Requested::Sent(seq) => assert_eq!(seq as u64, 99 - val),
            _ => panic!("there is room"),
        }
        held.push(service.try_recv(&mut conn.tx_pipe).unwrap());
        if val % 3 == 0 {
            while let Some(request) = held.pop() {
                let body = *request.body();
                back.try_send(&mut conn.rx_pipe, request.respond(body)).unwrap();
            }
        }
        loop {
            match client.dispatch(&conn.tx, &mut conn.tx_pipe, &conn.rx, &mut conn.rx_pipe) {
                Dispatched::Deliver { waiter, body } => {
                    assert_eq!(waiter, body);
                    answered += 1;
                }
                Dispatched::Pending => break,
                _ => panic!("the connection is fine"),
            }
        }
    }
    // a response that nobody waits for is ignored.
    back.try_send(&mut conn.rx_pipe, Response { seq: 12345, body: 1 }).unwrap();
    assert!(matches!(
        client.dispatch(&conn.tx, &mut conn.tx_pipe, &conn.rx, &mut conn.rx_pipe),
        Dispatched::Ignored { seq: 12345 }
    ));
    let failed = client.shutdown(&conn.tx, &mut conn.tx_pipe, &conn.rx, &mut conn.rx_pipe);
    assert_eq!(answered + failed.len(), 90);
    assert!(matches!(
        client.dispatch(&conn.tx, &mut conn.tx_pipe, &conn.rx, &mut conn.rx_pipe),
        Dispatched::Stopped
    ));
    assert!(matches!(
        client.request(&conn.tx, &mut conn.tx_pipe, 1, 1),
        Requested::Failed { waiter: 1, reset: Reset::BecauseISaidSo }
    ));
    assert_eq!(
        client.handle_wait_error(&conn.tx, &mut conn.tx_pipe, WaitError::Closed),
        RequestError::Reset(Reset::BecauseISaidSo)
    );
    assert_eq!(
        client.handle_wait_error(&conn.tx, &mut conn.tx_pipe, WaitError::Duplicate),
        RequestError::SeqInUse
    );
}

#[test]
fn resets_fail_requests() {
    let mut conn = conn(2);
    let mut client: Client<u64> = Client::new();
    assert!(matches!(client.request(&conn.tx, &mut conn.tx_pipe, 1, 1), Requested::Sent(0)));
    assert!(matches!(client.request(&conn.tx, &mut conn.tx_pipe, 2, 2), Requested::Sent(1)));
    match client.request(&conn.tx, &mut conn.tx_pipe, 3, 4) {
        Requested::NoRoom { waiter, body } => assert_eq!((waiter, body), (3, 4)),
        _ => panic!("there is no room"),
    }
    conn.rx.close_with_error(&mut conn.rx_pipe, Reset::GoAway);
    match client.dispatch(&conn.tx, &mut conn.tx_pipe, &conn.rx, &mut conn.rx_pipe) {
        Dispatched::Reset { reset, waiters } => {
            assert_eq!(reset, Reset::GoAway);
            assert_eq!(waiters, vec![(0, 1), (1, 2)]);
        }
        _ => panic!("the connection was reset"),
    }
    assert!(matches!(
        client.request(&conn.tx, &mut conn.tx_pipe, 5, 5),
        Requested::Failed { waiter: 5, reset: Reset::GoAway }
    ));
    // a connection whose other end is gone is reset, too.
    let mut conn = self::conn(2);
    let mut client: Client<u64> = Client::new();
    conn.rx_pipe.drop_handle();
    match client.dispatch(&conn.tx, &mut conn.tx_pipe, &conn.rx, &mut conn.rx_pipe) {
        Dispatched::Reset { reset, .. } => assert_eq!(reset, Reset::BecauseISaidSo),
        _ => panic!("the connection was reset"),
    }
    let mut conn = self::conn(2);
    let service = conn.tx_pipe.receiver().unwrap();
    service.drop(&mut conn.tx_pipe);
    let mut client: Client<u64> = Client::new();
    assert!(matches!(
        client.request(&conn.tx, &mut conn.tx_pipe, 5, 5),
        Requested::Failed { waiter: 5, reset: Reset::BecauseISaidSo }
    ));
}

#[test]
fn connectors() {
    let mut pipe: TrickyPipe<OutboundConnect<char, u8, u16>, ()> = TrickyPipe::new(1);
    let tx = pipe.sender();
    assert!(matches!(start_connect(&tx, &mut pipe, request(1)), Ok(Ok(()))));
    let back = start_connect(&tx, &mut pipe, request(2)).err().unwrap();
    assert_eq!(back.rsp, 2);
    let rx = pipe.receiver().unwrap();
    assert_eq!(rx.try_recv(&mut pipe).ok().unwrap().rsp, 1);
    rx.drop(&mut pipe);
    assert!(matches!(
        start_connect(&tx, &mut pipe, back),
        Ok(Err(ConnectError::InterfaceDead))
    ));
    assert_eq!(finish_connect(Ok(Ok(())), 'c'), Ok('c'));
    assert_eq!(
        finish_connect(Ok(Err(Rejection::NotFound)), 'c'),
        Err(ConnectError::Nak(Rejection::NotFound))
    );
    assert_eq!(
        finish_connect(Err(oneshot::RecvError::NoSender), 'c'),
        Err(ConnectError::InterfaceDead)
    );
    // what the client sends goes to the interface, and the other way round.
    let mut chans: Channels<u8, u16> = Channels::new(2, "u8", "u16");
    let client = chans.client_chan;
    let server = chans.srv_chan;
    assert!(client.is_empty(&chans.c2s, &chans.s2c));
    client.tx().try_send(&mut chans.c2s, 300).unwrap();
    let msg = server.rx().try_recv(&mut chans.c2s).ok().unwrap();
    assert_eq!(msg.to_vec(), vec![172, 2]);
    msg.drop(&mut chans.c2s);
    server.tx().try_send(&mut chans.s2c, &[7]).unwrap();
    assert!(!client.is_full(&chans.c2s, &chans.s2c));
    assert!(!server.is_empty::<u16, u8>(&chans.s2c, &chans.c2s));
    assert!(!server.is_full::<u16, u8>(&chans.s2c, &chans.c2s));
    assert_eq!(client.rx().try_recv(&mut chans.s2c), Ok(7));
    let (tx, rx) = client.split();
    // the client's end is the only sender.
    assert!(tx.drop(&mut chans.c2s));
    rx.drop(&mut chans.s2c);
    let (tx, rx) = server.split();
    assert_eq!(rx.try_recv(&mut chans.c2s).err(), Some(TryRecvError::Disconnected));
    assert!(tx.try_send(&mut chans.s2c, &[7]).is_err());

    // the same in storage of a fixed size.
    let mut chans = Channels::from_static(StaticChannels::<u8, u16, 2>::new(), "u8", "u16");
    let (client, server) = (chans.client_chan, chans.srv_chan);
    client.tx().try_send(&mut chans.c2s, 300).unwrap();
    assert!(matches!(
        poll_channel(server.rx(), &mut chans.c2s),
        Polled::Data(d) if d == vec![172, 2]
    ));
    server.tx().try_send(&mut chans.s2c, &[7]).unwrap();
    assert_eq!(client.rx().try_recv(&mut chans.s2c), Ok(7));
    assert_eq!((chans.c2s.capacity(), chans.s2c.capacity()), (2, 2));
}

#[test]
fn labelled_channels() {
    let mut out: TrickyPipe<DataFrame<u8>, ()> = TrickyPipe::new(1);
    let mut inn: TrickyPipe<u16, ()> = TrickyPipe::new(1);
    let ids = Ids { local_id: id(1), remote_id: id(2) };
    let chan = ClientChannel::new(ids, BiDi::from_pair(out.sender(), inn.receiver().unwrap()));
    chan.send(&mut out, 5).unwrap();
    assert_eq!(chan.send(&mut out, 6), Err(TrySendError::Full(6)));
    let rx = out.receiver().unwrap();
    assert_eq!(rx.try_recv(&mut out), Ok(DataFrame { ids, data: 5 }));
    rx.drop(&mut out);
    assert_eq!(chan.send(&mut out, 6), Err(TrySendError::Disconnected(6)));
}

#[test]
fn small_registry() {
    let mut pipe: TrickyPipe<HelloReply<u16, char>, ()> = TrickyPipe::new(2);
    let tx = pipe.sender();
    let permit = tx.try_reserve(&mut pipe).unwrap();
    assert_eq!(do_send(&[0x80, 1], 'r', permit, &mut pipe), Ok(()));
    let permit = tx.try_reserve(&mut pipe).unwrap();
    assert_eq!(do_send(&[0x80], 'r', permit, &mut pipe), Err(()));
    let rx = pipe.receiver().unwrap();
    let got = rx.try_recv(&mut pipe).ok().unwrap();
    assert_eq!((got.hello, got.reply), (128, 'r'));
    assert!(pipe.is_empty());
    let erase = |e: mini_reg::ConnectError<Small>| ErasedConnectError::from(e);
    assert_eq!(erase(mini_reg::ConnectError::ServiceNotFound), ErasedConnectError::ServiceNotFound);
    assert_eq!(erase(mini_reg::ConnectError::ServiceClosed), ErasedConnectError::ServiceClosed);
    assert_eq!(erase(mini_reg::ConnectError::OtherInternal), ErasedConnectError::OtherInternal);
    assert_eq!(erase(mini_reg::ConnectError::ServiceError(5)), ErasedConnectError::ServiceError);
}

struct Small;

impl ServiceSocket for Small {
    type ClientHello = u8;
    type ClientSent = u16;
    type ServiceSent = u32;
    type ServiceConnectError = u64;
    fn uuid() -> mgnp::codec::Uuid {
        mgnp::codec::Uuid::from_bytes([7; 16])
    }
}

#[test]
fn established_connections_are_not_requested_again() {
    let mut table: Table<4> = ConnTable::new();
    let connect = |n: u16| Header::Connect { local_id: id(n), identity: hello_world_id() };
    assert!(matches!(table.process_inbound(connect(7)), Step::Connect { .. }));
    let _ = table.connected(id(7), Ok(('d', 3)));
    assert_eq!(
        reply(table.process_inbound(connect(7))),
        Header::Reset { remote_id: id(7), reason: Reset::YesSuchConn }
    );
    assert!(matches!(table.process_inbound(connect(8)), Step::Connect { .. }));
    // once this side has ended the connection, the remote may use its identifier
    // again.
    let (frame, _) = search(&mut table, |_| Polled::Closed);
    assert_eq!(
        frame.unwrap().header,
        Header::Reset { remote_id: id(7), reason: Reset::BecauseISaidSo }
    );
    assert!(matches!(table.process_inbound(connect(7)), Step::Connect { .. }));
    let _ = table.connected(id(7), Ok(('e', 4)));
    assert_eq!(
        reply(table.process_inbound(connect(7))),
        Header::Reset { remote_id: id(7), reason: Reset::YesSuchConn }
    );
    assert!(search(&mut table, |_| Polled::Pending).0.is_none());
    assert_eq!(table.len(), 1);
    assert_eq!(table.get(id(2)).unwrap().channel, 'e');
}
