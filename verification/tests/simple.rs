//! Tables that only keep track of identifiers.
use mgnp::simple_table::{ConnTable, Frame};

#[test]
fn simple_tables() {
    let mut table: ConnTable<2> = ConnTable::new();
    assert!(table.is_empty());
    assert_eq!(table.connect(), Some(Frame::Connect { local_id: 1 }));
    assert_eq!(table.accept(9), Frame::Ack { local_id: 2, remote_id: 9 });
    assert_eq!(table.accept(8), Frame::Nak { remote_id: 8 });
    assert_eq!(table.connect(), None);
    assert_eq!(table.len(), 2);
    assert!(!table.close(3));
    // no connection has the identifier of the link-control channel.
    assert!(!table.close(0));
    assert_eq!(table.len(), 2);
    assert!(table.close(1));
    assert!(!table.close(1));
    assert_eq!(table.len(), 1);
    assert_eq!(table.connect(), Some(Frame::Connect { local_id: 1 }));
}
