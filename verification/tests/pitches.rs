//! Interfaces whose messages are either about connections or on them.
use mgnp::codec::Codec;
use mgnp::discovery::EndpointsService;
use mgnp::id::Id;
use mgnp::pitch::conn_table::{ConnTable, Delivery, Step};
use mgnp::pitch::interface::{Action, Event, Interface, OutboundConnect};
use mgnp::pitch::{ControlMessage, Message, Nak};
use mgnp::registry::Identity;

fn id(n: u16) -> Id {
    Id::new(n).unwrap()
}

fn hello_world_id() -> Identity {
    Identity::from_name::<EndpointsService>("hello-world")
}

#[test]
fn pitch_tables() {
    let mut table: ConnTable<char, 2> = ConnTable::new();
    let data = |local, remote| Message::Data {
        local_id: id(local),
        remote_id: id(remote),
        data: vec![1],
    };
    match table.process_inbound(data(4, 1)) {
        Step::Reply(m) => assert_eq!(m, Message::reset(id(4))),
        _ => panic!("there is no such connection"),
    }
    assert_eq!(
        table.start_connecting(hello_world_id(), vec![5], 'a'),
        Some(ControlMessage::Connect {
            local_id: id(1),
            identity: hello_world_id(),
            hello: vec![5]
        })
    );
    let ack = || Message::Control(ControlMessage::Ack { local_id: id(4), remote_id: id(1) });
    assert!(matches!(table.process_inbound(ack()), Step::Done));
    match table.process_inbound(ack()) {
        Step::Reply(m) => assert_eq!(m, Message::reset(id(4))),
        _ => panic!("the connection is established already"),
    }
    assert!(matches!(table.process_inbound(data(4, 1)), Step::Deliver { .. }));
    assert!(table.delivered(id(1), id(4), Delivery::BadData).is_none());
    assert!(table.delivered(id(1), id(4), Delivery::Sent).is_none());
    assert_eq!(table.bidi(id(1)), Some(&'a'));
    assert_eq!(
        table.accept(id(6), 'b'),
        ControlMessage::Ack { local_id: id(2), remote_id: id(6) }
    );
    let names: Vec<char> = table.iter_sockets().iter().map(|s| s.bidi).collect();
    assert_eq!(names, vec!['a', 'b']);
    assert_eq!(
        table.accept(id(7), 'c'),
        ControlMessage::Nak { remote_id: id(7), reason: Nak::ConnTableFull(2) }
    );
    assert!(table.start_connecting(hello_world_id(), vec![], 'd').is_none());
    assert_eq!(
        table.delivered(id(1), id(4), Delivery::ChannelClosed),
        Some(Message::reset(id(4)))
    );
    assert_eq!(table.len(), 1);
    let nak =
        Message::Control(ControlMessage::Nak { remote_id: id(2), reason: Nak::NotFound });
    assert!(matches!(table.process_inbound(nak), Step::Done));
    assert!(table.is_empty());
    assert!(!table.close(id(2)));
    assert_eq!(
        table.connected(id(7), Err(Nak::Rejected())),
        ControlMessage::Nak { remote_id: id(7), reason: Nak::Rejected() }
    );
}

#[test]
fn pitch_interfaces() {
    let mut local: Interface<char, 4> = Interface::new();
    let mut remote: Interface<char, 4> = Interface::new();
    let connect =
        OutboundConnect { identity: hello_world_id(), hello: vec![1, 2], channel: 'l' };
    let sent = match local.run(Event::Requested(Some(connect))) {
        Action::Send(m) => m.to_vec(),
        _ => panic!("a request is sent"),
    };
    let ack = match remote.run(Event::Received(sent)) {
        Action::Connect { remote_id, identity, hello } => {
            assert_eq!((identity, hello), (hello_world_id(), vec![1, 2]));
            match remote.run(Event::Connected { remote_id, answer: Ok('r') }) {
                Action::Send(m) => m,
                _ => panic!("the request is answered"),
            }
        }
        _ => panic!("a service is asked"),
    };
    assert_eq!(
        ack,
        Message::Control(ControlMessage::Ack { local_id: id(1), remote_id: id(1) })
    );
    assert!(matches!(local.run(Event::Received(ack.to_vec())), Action::Wait));
    let data = Message::Data { local_id: id(1), remote_id: id(1), data: vec![9] };
    match local.run(Event::Received(data.to_vec())) {
        Action::Deliver { data, .. } => assert_eq!(data, vec![9]),
        _ => panic!("the data is delivered"),
    }
    assert!(matches!(local.run(Event::Received(vec![7])), Action::Wait));
    assert!(matches!(local.run(Event::Requested(None)), Action::Wait));
    assert!(matches!(local.run(Event::WireFailed), Action::Fail));
}
