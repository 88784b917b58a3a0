//! Channels, with typed and with serialized messages.
use mgnp::codec::PostcardError;
use mgnp::tricky_pipe::mpsc::channel_core;
use mgnp::tricky_pipe::mpsc::channel_core::{
    commit_step, dequeue_step, slot_number, CommitStep, DequeueStep,
};
use mgnp::tricky_pipe::mpsc::error::{
    RecvError, SendError, SerSendError, SerTrySendError, TryRecvError, TrySendError,
};
use mgnp::tricky_pipe::mpsc::{
    DeserSender, Permit, Receiver, Sender, SerPermit, SerReceiver, SerRecvRef, TrickyPipe,
};
use mgnp::tricky_pipe::tp3;
use std::collections::BTreeSet;
use std::rc::Rc;

type SerStruct = (u8, (i16, (u32, String)));

#[derive(Debug, PartialEq)]
struct UnSerStruct {
    a: u8,
    b: i16,
    c: u32,
    d: String,
}

const MSG_ONE: &[u8] = &[240, 223, 93, 160, 141, 6, 5, 104, 101, 108, 108, 111];
const MSG_TWO: &[u8] = &[20, 255, 124, 192, 154, 12, 6, 103, 114, 101, 101, 116, 115];
const MSG_THREE: &[u8] = &[100, 207, 15, 224, 167, 18, 5, 111, 104, 32, 109, 121];

fn unser(a: u8, b: i16, c: u32, d: &str) -> UnSerStruct {
    UnSerStruct { a, b, c, d: String::from(d) }
}

fn ser(a: u8, b: i16, c: u32, d: &str) -> SerStruct {
    (a, (b, (c, String::from(d))))
}

fn three_unser() -> Vec<UnSerStruct> {
    vec![
        unser(240, -6_000, 100_000, "hello"),
        unser(20, -8000, 200_000, "greets"),
        unser(100, -1_000, 300_000, "oh my"),
    ]
}

fn three_ser() -> Vec<SerStruct> {
    vec![
        ser(240, -6_000, 100_000, "hello"),
        ser(20, -8000, 200_000, "greets"),
        ser(100, -1_000, 300_000, "oh my"),
    ]
}

fn assert_send<T: Send>() {}
fn assert_sync<T: Sync>() {}
fn assert_unpin<T: Unpin>() {}

#[test]
fn pos_bit_layout() {
    println!("   CLOSED = {:#016b}", channel_core::CLOSED);
    println!("  POS_ONE = {:#016b}", channel_core::POS_ONE);
    println!("  SEQ_ONE = {:#016b}", channel_core::SEQ_ONE);
    println!("     MASK = {:#016b}", channel_core::MASK);
    println!("SEQ_SHIFT = {}", channel_core::SEQ_SHIFT);
    let packed_seq_bits = u16::BITS - (channel_core::SEQ_SHIFT as u32 + 1);
    println!(" seq bits = u16::BITS - (SEQ_SHIFT + 1) = {packed_seq_bits}");
    assert!(
        packed_seq_bits >= 2,
        "at least two bits (4 laps) should be used for sequence numbers"
    );
    assert_eq!(channel_core::CLOSED_ERROR, channel_core::CLOSED | channel_core::HAS_ERROR);
    assert_eq!(channel_core::POS_SHIFT as u32, channel_core::CLOSED_ERROR.trailing_ones());
    assert_eq!(channel_core::POS_ONE, 1 << channel_core::POS_SHIFT);
    assert_eq!(channel_core::MASK as usize, channel_core::MAX_CAPACITY - 1);
    assert_eq!(channel_core::SEQ_SHIFT as u32, channel_core::MASK.trailing_ones());
    assert_eq!(channel_core::SEQ_ONE, 1 << channel_core::SEQ_SHIFT);
    assert_eq!(channel_core::TX_ONE, 1 << channel_core::TX_SHIFT);
}

#[test]
fn receiver() {
    assert_send::<Receiver<UnSerStruct, ()>>();
    assert_sync::<Receiver<UnSerStruct, ()>>();
    assert_unpin::<Receiver<UnSerStruct, ()>>();
}

#[test]
fn sender() {
    assert_send::<Sender<UnSerStruct, ()>>();
    assert_sync::<Sender<UnSerStruct, ()>>();
    assert_unpin::<Sender<UnSerStruct, ()>>();
}

#[test]
fn ser_receiver() {
    assert_send::<SerReceiver<()>>();
    assert_sync::<SerReceiver<()>>();
    assert_unpin::<SerReceiver<()>>();
}

#[test]
fn deser_sender() {
    assert_send::<DeserSender<()>>();
    assert_sync::<DeserSender<()>>();
    assert_unpin::<DeserSender<()>>();
}

#[test]
fn ser_recv_ref() {
    assert_send::<SerRecvRef<SerStruct>>();
    assert_sync::<SerRecvRef<SerStruct>>();
    assert_unpin::<SerRecvRef<SerStruct>>();
}

#[test]
fn permit() {
    assert_send::<Permit<UnSerStruct, ()>>();
    assert_sync::<Permit<UnSerStruct, ()>>();
    assert_unpin::<Permit<UnSerStruct, ()>>();
}

#[test]
fn ser_permit() {
    assert_send::<SerPermit<SerStruct, ()>>();
    assert_sync::<SerPermit<SerStruct, ()>>();
    assert_unpin::<SerPermit<SerStruct, ()>>();
}

#[test]
fn tests_normal_smoke() {
    let mut chan = TrickyPipe::<UnSerStruct, ()>::new(4);
    let tx = chan.sender();
    let rx = chan.receiver().unwrap();
    for msg in three_unser() {
        tx.try_reserve(&mut chan).unwrap().send(&mut chan, msg);
    }
    for msg in three_unser() {
        assert_eq!(rx.try_recv(&mut chan).unwrap(), msg);
    }

    let mut chan = tp3::TrickyPipe::<UnSerStruct>::new(4);
    let tx = chan.sender();
    let rx = chan.receiver().unwrap();
    for msg in three_unser() {
        tx.try_reserve(&mut chan).ok().unwrap().send(&mut chan, msg);
    }
    for msg in three_unser() {
        assert_eq!(rx.try_recv(&mut chan).unwrap(), msg);
    }
}

#[test]
fn tests_normal_closed_rx() {
    let mut chan = TrickyPipe::<UnSerStruct, ()>::new(4);
    let tx = chan.sender();
    let rx = chan.receiver().unwrap();
    rx.drop(&mut chan);
    assert_eq!(tx.try_reserve(&mut chan).err().unwrap(), TrySendError::Disconnected(()));

    let mut chan = tp3::TrickyPipe::<UnSerStruct>::new(4);
    let tx = chan.sender();
    let rx = chan.receiver().unwrap();
    rx.drop(&mut chan);
    assert_eq!(tx.try_reserve(&mut chan).err().unwrap(), tp3::error::TrySendError::Closed);
}

#[test]
fn tests_normal_closed_tx() {
    let mut chan = TrickyPipe::<UnSerStruct, ()>::new(4);
    let tx = chan.sender();
    let rx = chan.receiver().unwrap();
    assert!(!chan.drop_handle());
    assert!(tx.drop(&mut chan));
    assert_eq!(rx.try_recv(&mut chan).unwrap_err(), TryRecvError::Disconnected);

    let mut chan = tp3::TrickyPipe::<UnSerStruct>::new(4);
    let tx = chan.sender();
    let rx = chan.receiver().unwrap();
    assert!(tx.drop(&mut chan));
    assert_eq!(rx.try_recv(&mut chan).unwrap_err(), tp3::error::TryRecvError::Closed);
}

#[test]
fn tests_normal_closed_cloned_tx() {
    let mut chan = TrickyPipe::<UnSerStruct, ()>::new(4);
    let tx1 = chan.sender();
    let tx2 = tx1.clone(&mut chan);
    let rx = chan.receiver().unwrap();
    assert!(!chan.drop_handle());
    assert!(!tx1.drop(&mut chan));
    assert_eq!(rx.try_recv(&mut chan).unwrap_err(), TryRecvError::Empty);
    assert!(tx2.drop(&mut chan));
    assert_eq!(rx.try_recv(&mut chan).unwrap_err(), TryRecvError::Disconnected);

    let mut chan = tp3::TrickyPipe::<UnSerStruct>::new(4);
    let tx1 = chan.sender();
    let tx2 = tx1.clone(&mut chan);
    let rx = chan.receiver().unwrap();
    assert!(!tx1.drop(&mut chan));
    assert!(tx2.drop(&mut chan));
    assert_eq!(rx.try_recv(&mut chan).unwrap_err(), tp3::error::TryRecvError::Closed);
}

#[test]
fn tests_ser_smoke() {
    let mut chan = TrickyPipe::<SerStruct, ()>::new(4);
    let tx = chan.sender();
    let rx = chan.ser_receiver("SerStruct").unwrap();
    for msg in three_ser() {
        tx.try_reserve(&mut chan).unwrap().send(&mut chan, msg);
    }
    for bytes in [MSG_ONE, MSG_TWO, MSG_THREE] {
        let msg = rx.try_recv(&mut chan).unwrap();
        assert_eq!(msg.to_vec(), bytes);
        msg.drop(&mut chan);
    }

    let mut chan = tp3::TrickyPipe::<SerStruct>::new(4);
    let tx = chan.sender();
    let rx = chan.ser_receiver("SerStruct").unwrap();
    for msg in three_ser() {
        tx.try_reserve(&mut chan).ok().unwrap().send(&mut chan, msg);
    }
    for bytes in [MSG_ONE, MSG_TWO, MSG_THREE] {
        let msg = rx.try_recv(&mut chan).ok().unwrap();
        assert_eq!(msg.to_vec(), bytes);
        msg.drop(&mut chan);
    }
}

#[test]
fn tests_ser_closed_rx() {
    let mut chan = TrickyPipe::<SerStruct, ()>::new(4);
    let tx = chan.sender();
    let rx = chan.ser_receiver("SerStruct").unwrap();
    rx.drop(&mut chan);
    assert_eq!(tx.try_reserve(&mut chan).err().unwrap(), TrySendError::Disconnected(()));

    let mut chan = tp3::TrickyPipe::<SerStruct>::new(4);
    let tx = chan.sender();
    let rx = chan.ser_receiver("SerStruct").unwrap();
    rx.drop(&mut chan);
    assert_eq!(tx.try_reserve(&mut chan).err().unwrap(), tp3::error::TrySendError::Closed);
}

#[test]
fn tests_ser_closed_tx() {
    let mut chan = TrickyPipe::<SerStruct, ()>::new(4);
    let tx = chan.sender();
    let rx = chan.ser_receiver("SerStruct").unwrap();
    chan.drop_handle();
    tx.drop(&mut chan);
    assert_eq!(rx.try_recv(&mut chan).err().unwrap(), TryRecvError::Disconnected);

    let mut chan = tp3::TrickyPipe::<SerStruct>::new(4);
    let tx = chan.sender();
    let rx = chan.ser_receiver("SerStruct").unwrap();
    tx.drop(&mut chan);
    assert_eq!(rx.try_recv(&mut chan).err().unwrap(), tp3::error::TryRecvError::Closed);
}

#[test]
fn tests_ser_closed_cloned_tx() {
    let mut chan = TrickyPipe::<SerStruct, ()>::new(4);
    let tx1 = chan.sender();
    let tx2 = tx1.clone(&mut chan);
    let rx = chan.ser_receiver("SerStruct").unwrap();
    chan.drop_handle();
    tx1.drop(&mut chan);
    tx2.drop(&mut chan);
    assert_eq!(rx.try_recv(&mut chan).err().unwrap(), TryRecvError::Disconnected);

    let mut chan = tp3::TrickyPipe::<SerStruct>::new(4);
    let tx1 = chan.sender();
    let tx2 = tx1.clone(&mut chan);
    let rx = chan.ser_receiver("SerStruct").unwrap();
    tx1.drop(&mut chan);
    tx2.drop(&mut chan);
    assert_eq!(rx.try_recv(&mut chan).err().unwrap(), tp3::error::TryRecvError::Closed);
}

#[test]
fn tests_ser_ref_smoke() {
    let mut chan = TrickyPipe::<SerStruct, ()>::new(4);
    let tx = chan.sender();
    let rx = chan.ser_receiver("SerStruct").unwrap();
    for msg in three_ser() {
        tx.try_reserve(&mut chan).unwrap().send(&mut chan, msg);
    }
    let mut buf = [0u8; 128];
    for bytes in [MSG_ONE, MSG_TWO, MSG_THREE] {
        let msg = rx.try_recv(&mut chan).unwrap();
        assert_eq!(msg.to_slice(&mut buf).unwrap(), bytes);
        msg.drop(&mut chan);
    }

    let mut chan = tp3::TrickyPipe::<SerStruct>::new(4);
    let tx = chan.sender();
    let rx = chan.ser_receiver("SerStruct").unwrap();
    for msg in three_ser() {
        tx.try_reserve(&mut chan).ok().unwrap().send(&mut chan, msg);
    }
    for bytes in [MSG_ONE, MSG_TWO, MSG_THREE] {
        let msg = rx.try_recv(&mut chan).ok().unwrap();
        assert_eq!(msg.to_slice(&mut buf).unwrap(), bytes);
        msg.drop(&mut chan);
    }
}

#[test]
fn tests_deser_smoke() {
    let mut chan = TrickyPipe::<SerStruct, ()>::new(4);
    let tx = chan.deser_sender("SerStruct");
    let rx = chan.receiver().unwrap();
    for bytes in [MSG_ONE, MSG_TWO, MSG_THREE] {
        tx.try_send(&mut chan, bytes).unwrap();
    }
    for msg in three_ser() {
        assert_eq!(rx.try_recv(&mut chan), Ok(msg));
    }

    let mut chan = tp3::TrickyPipe::<SerStruct>::new(4);
    let tx = chan.deser_sender("SerStruct");
    let rx = chan.receiver().unwrap();
    for bytes in [MSG_ONE, MSG_TWO, MSG_THREE] {
        tx.try_send(&mut chan, bytes).unwrap();
    }
    for msg in three_ser() {
        assert_eq!(rx.try_recv(&mut chan), Ok(msg));
    }
}

#[test]
fn tests_deser_closed_rx() {
    let mut chan = TrickyPipe::<SerStruct, ()>::new(4);
    let tx = chan.deser_sender("SerStruct");
    let rx = chan.receiver().unwrap();
    chan.drop_handle();
    rx.drop(&mut chan);
    let res = tx.try_send(&mut chan, MSG_ONE);
    assert_eq!(res.unwrap_err(), SerTrySendError::Disconnected);

    let mut chan = tp3::TrickyPipe::<SerStruct>::new(4);
    let tx = chan.deser_sender("SerStruct");
    let rx = chan.receiver().unwrap();
    rx.drop(&mut chan);
    let res = tx.try_send(&mut chan, MSG_ONE);
    assert_eq!(
        res.unwrap_err(),
        tp3::error::SerTrySendError::Send(tp3::error::TrySendError::Closed),
    );
}

#[test]
fn tests_deser_closed_tx() {
    let mut chan = TrickyPipe::<SerStruct, ()>::new(4);
    let tx = chan.deser_sender("SerStruct");
    let rx = chan.receiver().unwrap();
    chan.drop_handle();
    tx.drop(&mut chan);
    assert_eq!(rx.try_recv(&mut chan).unwrap_err(), TryRecvError::Disconnected);

    let mut chan = tp3::TrickyPipe::<SerStruct>::new(4);
    let tx = chan.deser_sender("SerStruct");
    let rx = chan.receiver().unwrap();
    tx.drop(&mut chan);
    assert_eq!(rx.try_recv(&mut chan).unwrap_err(), tp3::error::TryRecvError::Closed);
}

#[test]
fn tests_deser_closed_cloned_tx() {
    let mut chan = TrickyPipe::<SerStruct, ()>::new(4);
    let tx1 = chan.deser_sender("SerStruct");
    let tx2 = tx1.clone(&mut chan);
    let rx = chan.receiver().unwrap();
    chan.drop_handle();
    tx1.drop(&mut chan);
    tx2.drop(&mut chan);
    assert_eq!(rx.try_recv(&mut chan).unwrap_err(), TryRecvError::Disconnected);

    let mut chan = tp3::TrickyPipe::<SerStruct>::new(4);
    let tx1 = chan.deser_sender("SerStruct");
    let tx2 = tx1.clone(&mut chan);
    let rx = chan.receiver().unwrap();
    tx1.drop(&mut chan);
    tx2.drop(&mut chan);
    assert_eq!(rx.try_recv(&mut chan).unwrap_err(), tp3::error::TryRecvError::Closed);
}

#[test]
fn tests_deser_ser_smoke() {
    let mut chan = TrickyPipe::<SerStruct, ()>::new(4);
    let tx = chan.deser_sender("SerStruct");
    let rx = chan.ser_receiver("SerStruct").unwrap();
    for bytes in [MSG_ONE, MSG_TWO, MSG_THREE] {
        tx.try_send(&mut chan, bytes).unwrap();
    }
    let mut buf = [0u8; 128];
    for bytes in [MSG_ONE, MSG_TWO, MSG_THREE] {
        let msg = rx.try_recv(&mut chan).unwrap();
        assert_eq!(msg.to_slice(&mut buf).unwrap(), bytes);
        msg.drop(&mut chan);
    }

    let mut chan = tp3::TrickyPipe::<SerStruct>::new(4);
    let tx = chan.deser_sender("SerStruct");
    let rx = chan.ser_receiver("SerStruct").unwrap();
    for bytes in [MSG_ONE, MSG_TWO, MSG_THREE] {
        tx.try_send(&mut chan, bytes).unwrap();
    }
    for bytes in [MSG_ONE, MSG_TWO, MSG_THREE] {
        let msg = rx.try_recv(&mut chan).ok().unwrap();
        assert_eq!(msg.to_slice(&mut buf).unwrap(), bytes);
        msg.drop(&mut chan);
    }
}

#[test]
fn tests_elements_dropped() {
    let counted = Rc::new(());
    let mut chan = TrickyPipe::<(usize, Rc<()>), ()>::new(4);
    let rx = chan.receiver().expect("can't get rx");
    let tx = chan.sender();
    for i in 1..=3 {
        tx.try_reserve(&mut chan).expect("reserve").send(&mut chan, (i, counted.clone()));
    }
    assert_eq!(Rc::strong_count(&counted), 4);
    let item1 = rx.poll_recv(&mut chan).expect("ready").expect("recv 1");
    assert_eq!(item1.0, 1);
    drop(item1);
    assert_eq!(Rc::strong_count(&counted), 3);
    rx.drop(&mut chan);
    drop(chan);
    assert_eq!(Rc::strong_count(&counted), 1);

    let mut chan = tp3::TrickyPipe::<(usize, Rc<()>)>::new(4);
    let rx = chan.receiver().expect("can't get rx");
    let tx = chan.sender();
    for i in 1..=3 {
        tx.try_reserve(&mut chan).ok().expect("reserve").send(&mut chan, (i, counted.clone()));
    }
    let item1 = rx.poll_recv(&mut chan).expect("ready").expect("recv 1");
    assert_eq!(item1.0, 1);
    rx.drop(&mut chan);
    drop(chan);
    drop(item1);
    assert_eq!(Rc::strong_count(&counted), 1);
}

#[test]
fn tests_spsc_try_send_in_capacity() {
    const SENDS: usize = 32;
    let mut chan = TrickyPipe::<usize, ()>::new(SENDS as u8);
    let rx = chan.receiver().expect("can't get rx");
    let tx = chan.sender();
    chan.drop_handle();
    for i in 0..SENDS {
        tx.try_reserve(&mut chan).expect("try_reserve").send(&mut chan, i);
    }
    tx.drop(&mut chan);
    let mut i = 0;
    while let Some(Ok(msg)) = rx.poll_recv(&mut chan) {
        assert_eq!(msg, i);
        i += 1;
    }
    assert_eq!(i, SENDS);

    let mut chan = tp3::TrickyPipe::<usize>::new(SENDS as u8);
    let rx = chan.receiver().expect("can't get rx");
    let tx = chan.sender();
    for i in 0..SENDS {
        tx.try_reserve(&mut chan).ok().expect("try_reserve").send(&mut chan, i);
    }
    tx.drop(&mut chan);
    let mut i = 0;
    while let Some(Some(msg)) = rx.poll_recv(&mut chan) {
        assert_eq!(msg, i);
        i += 1;
    }
    assert_eq!(i, SENDS);
}

#[test]
fn tests_spsc_send() {
    const SENDS: usize = 32;
    let mut chan = TrickyPipe::<usize, ()>::new((SENDS / 2) as u8);
    let rx = chan.receiver().expect("can't get rx");
    let tx = chan.sender();
    chan.drop_handle();
    let mut sent = 0;
    let mut received = 0;
    while sent < SENDS {
        match tx.poll_reserve(&mut chan) {
            Some(permit) => {
                permit.expect("channel shouldn't be closed").send(&mut chan, sent);
                sent += 1;
            }
            // the sender has to wait, so let the receiver go on.
            None => {
                assert_eq!(rx.poll_recv(&mut chan), Some(Ok(received)));
                received += 1;
            }
        }
    }
    tx.drop(&mut chan);
    while let Some(Ok(msg)) = rx.poll_recv(&mut chan) {
        assert_eq!(msg, received);
        received += 1;
    }
    assert_eq!(received, SENDS);
    assert_eq!(rx.poll_recv(&mut chan), Some(Err(RecvError::Disconnected)));
}

fn interleave(sends1: usize, sends2: usize, capacity: u8) {
    let mut chan = TrickyPipe::<usize, ()>::new(capacity);
    let rx = chan.receiver().expect("can't get rx");
    let tx1 = chan.sender();
    let tx2 = chan.sender();
    // drop the channel now so that the channel can be tx-closed.
    chan.drop_handle();

    let mut recvs = BTreeSet::new();
    let (mut next1, mut next2) = (0, sends1);
    let (mut last1, mut last2) = (None, None);
    let mut live1 = Some(tx1);
    let mut live2 = Some(tx2);
    let mut turn = 0;
    loop {
        turn += 1;
        if let Some(tx) = live1.take() {
            if next1 == sends1 {
                tx.drop(&mut chan);
            } else {
                if let Some(permit) = tx.poll_reserve(&mut chan) {
                    permit.expect("channel shouldn't be closed").send(&mut chan, next1);
                    next1 += 1;
                }
                live1 = Some(tx);
            }
        }
        if turn % 3 != 0 {
            if let Some(tx) = live2.take() {
                if next2 == sends1 + sends2 {
                    tx.drop(&mut chan);
                } else {
                    if let Some(permit) = tx.poll_reserve(&mut chan) {
                        permit.expect("channel shouldn't be closed").send(&mut chan, next2);
                        next2 += 1;
                    }
                    live2 = Some(tx);
                }
            }
        }
        match rx.poll_recv(&mut chan) {
            Some(Ok(msg)) => {
                // each sender's messages come in the order they were sent.
                let last = if msg < sends1 { &mut last1 } else { &mut last2 };
                assert!(*last < Some(msg));
                *last = Some(msg);
                assert!(recvs.insert(msg), "each message should only have been received once");
            }
            Some(Err(RecvError::Disconnected)) => break,
            Some(Err(_)) => panic!("no error was given"),
            None => {}
        }
    }
    for msg in 0..sends1 + sends2 {
        assert!(recvs.contains(&msg), "didn't receive {}", msg);
    }
}

#[test]
fn tests_mpsc_send() {
    interleave(16, 16, 32);
}

#[test]
fn stress_mpsc_send() {
    interleave(64, 64, 8);
}

#[test]
fn positions_wrap_around() {
    // far more messages than there are positions.
    let mut chan = TrickyPipe::<usize, ()>::new(3);
    let rx = chan.receiver().unwrap();
    let tx = chan.sender();
    for i in 0..40_000 {
        tx.try_send(&mut chan, 2 * i).unwrap();
        tx.try_send(&mut chan, 2 * i + 1).unwrap();
        assert_eq!(chan.len(), 2);
        assert_eq!(rx.try_recv(&mut chan), Ok(2 * i));
        assert_eq!(rx.try_recv(&mut chan), Ok(2 * i + 1));
        assert_eq!(rx.try_recv(&mut chan), Err(TryRecvError::Empty));
        assert!(chan.is_empty());
    }
}

#[test]
fn downcast_send() {
    const SENDS: u8 = 2;
    let mut chan = TrickyPipe::<u16, ()>::new(SENDS);
    let rx = chan.receiver().expect("can't get rx");
    let tx = chan.sender().into_erased("u16");
    chan.drop_handle();
    assert!(tx.is::<u16>());
    assert_eq!(tx.type_id(), std::any::TypeId::of::<u16>());
    assert!(!tx.is::<u8>());
    assert_eq!(tx.name_of_type(), "u16");
    for i in 0..SENDS {
        let permit = tx.poll_reserve(&mut chan).unwrap().ok().unwrap();
        let permit = permit
            .downcast::<u8>()
            .err()
            .expect("wrong type, should not downcast");
        permit
            .downcast::<u16>()
            .ok()
            .expect("correct type should downcast")
            .send(&mut chan, i as u16);
    }
    tx.drop(&mut chan);
    let mut i = 0;
    while let Some(Ok(msg)) = rx.poll_recv(&mut chan) {
        assert_eq!(msg, i);
        i += 1;
    }
    assert_eq!(i, SENDS as u16);
}

#[test]
fn rx_closes_error() {
    const CAPACITY: u8 = 2;
    let mut chan = TrickyPipe::<usize, &'static str>::new(CAPACITY);
    let rx = chan.receiver().expect("can't get rx");
    let tx = chan.sender();
    assert!(rx.close_with_error(&mut chan, "fake rx error"));
    match tx.try_send(&mut chan, 1).unwrap_err() {
        TrySendError::Error { error, message } => {
            assert_eq!(error, "fake rx error");
            assert_eq!(message, 1);
        }
        err => panic!("expected TrySendError::Error, got {:?}", err),
    }
    match tx.poll_reserve(&mut chan) {
        Some(Err(SendError::Error { error, .. })) => assert_eq!(error, "fake rx error"),
        _ => panic!("expected SendError::Error"),
    }
}

#[test]
fn tx_closes_error() {
    const CAPACITY: u8 = 2;
    let mut chan = TrickyPipe::<usize, &'static str>::new(CAPACITY);
    let rx = chan.receiver().expect("can't get rx");
    let tx1 = chan.sender();
    let tx2 = chan.sender();
    assert!(tx1.close_with_error(&mut chan, "fake tx1 error"));
    assert!(!tx2.close_with_error(&mut chan, "fake tx2 error"));
    let err = rx.poll_recv(&mut chan).unwrap().unwrap_err();
    assert!(matches!(err, RecvError::Error("fake tx1 error")));
}

#[test]
fn messages_come_before_the_error() {
    let mut chan = TrickyPipe::<u8, &'static str>::new(1);
    let rx = chan.receiver().unwrap();
    assert!(chan.receiver().is_none());
    let tx = chan.sender();
    tx.try_send(&mut chan, 7).unwrap();
    // the channel is full now.
    assert_eq!(tx.try_send(&mut chan, 8), Err(TrySendError::Full(8)));
    assert!(tx.close_with_error(&mut chan, "oops"));
    // the error comes before that the channel is full.
    assert_eq!(
        tx.try_send(&mut chan, 8),
        Err(TrySendError::Error { message: 8, error: "oops" })
    );
    assert_eq!(rx.try_recv(&mut chan), Ok(7));
    assert_eq!(rx.try_recv(&mut chan), Err(TryRecvError::Error("oops")));
}

#[test]
fn counts() {
    let mut chan = TrickyPipe::<u8, ()>::new(2);
    let rx = chan.receiver().unwrap();
    let tx = chan.sender();
    assert_eq!((tx.len(&chan), tx.capacity(&chan), tx.remaining(&chan)), (0, 2, 2));
    assert!(tx.is_empty(&chan) && !tx.is_full(&chan));
    tx.try_send(&mut chan, 1).unwrap();
    let permit = tx.try_reserve(&mut chan).unwrap();
    // all room is reserved, but there is one message only.
    assert_eq!(tx.try_send(&mut chan, 9), Err(TrySendError::Full(9)));
    assert_eq!((rx.len(&chan), rx.capacity(&chan), rx.remaining(&chan)), (1, 2, 1));
    assert!(!rx.is_empty(&chan) && !rx.is_full(&chan));
    permit.drop(&mut chan);
    tx.try_send(&mut chan, 2).unwrap();
    assert!(rx.is_full(&chan));
    assert_eq!(rx.remaining(&chan), 0);
    // a permit can be used after the receiver is gone.
    assert_eq!(rx.try_recv(&mut chan), Ok(1));
    let permit = tx.try_reserve(&mut chan).unwrap();
    rx.drop(&mut chan);
    permit.send(&mut chan, 3);
    assert_eq!(chan.len(), 2);
}

#[test]
fn messages_that_are_read_take_room() {
    let mut chan = TrickyPipe::<u16, ()>::new(1);
    let rx = chan.ser_receiver("u16").unwrap();
    let tx = chan.deser_sender("u16");
    tx.try_send(&mut chan, &[0x80, 0x01]).unwrap();
    let msg = rx.try_recv(&mut chan).unwrap();
    assert!(chan.is_empty());
    assert_eq!(tx.try_send(&mut chan, &[1]), Err(SerTrySendError::Full));
    assert_eq!(tx.poll_send(&mut chan, &[1]), None);
    assert_eq!(msg.to_vec(), vec![0x80, 0x01]);
    let mut small = [9u8; 1];
    assert_eq!(msg.to_slice(&mut small), Err(PostcardError::SerializeBufferFull));
    assert_eq!(small, [9]);
    assert_eq!(msg.to_vec_framed(), vec![3, 0x80, 0x01, 0]);
    let mut buf = [9u8; 6];
    assert_eq!(msg.to_slice_framed(&mut buf).unwrap(), &[3, 0x80, 0x01, 0]);
    assert_eq!(buf, [3, 0x80, 0x01, 0, 9, 9]);
    msg.drop(&mut chan);
    assert_eq!(tx.poll_send(&mut chan, &[1]), Some(Ok(())));
}

#[test]
fn bad_bytes_give_the_room_back() {
    let mut chan = TrickyPipe::<u16, &'static str>::new(1);
    let rx = chan.receiver().unwrap();
    let tx = chan.deser_sender("u16");
    assert_eq!(
        tx.try_send(&mut chan, &[0x80]),
        Err(SerTrySendError::Deserialize(PostcardError::DeserializeUnexpectedEnd))
    );
    assert_eq!(
        tx.poll_send(&mut chan, &[0xff, 0xff, 0x04]),
        Some(Err(SerSendError::Deserialize(PostcardError::DeserializeBadVarint)))
    );
    assert_eq!(
        tx.try_send_decoded(&mut chan, Err(PostcardError::DeserializeBadEncoding)),
        Err(SerTrySendError::Deserialize(PostcardError::DeserializeBadEncoding))
    );
    tx.try_send_decoded(&mut chan, Ok(5)).unwrap();
    assert_eq!(tx.try_send(&mut chan, &[6]), Err(SerTrySendError::Full));
    assert_eq!(rx.try_recv(&mut chan), Ok(5));
    tx.close_with_error(&mut chan, "no");
    assert_eq!(tx.try_send(&mut chan, &[6]), Err(SerTrySendError::Error("no")));
    assert_eq!(tx.poll_send(&mut chan, &[6]), Some(Err(SerSendError::Error("no"))));
}

#[test]
fn handles_are_converted() {
    let mut chan = TrickyPipe::<u16, ()>::new(2);
    let tx = chan.sender().into_serde("u16");
    let rx = chan.receiver().unwrap().into_serde("u16");
    tx.try_send(&mut chan, &[7]).unwrap();
    let rx = rx.downcast::<u8>().err().unwrap();
    let rx = rx.downcast::<u16>().ok().unwrap();
    let tx = tx.downcast::<u16>().ok().unwrap();
    tx.try_send(&mut chan, 8).unwrap();
    assert_eq!(rx.try_recv(&mut chan), Ok(7));
    assert_eq!(rx.try_recv(&mut chan), Ok(8));
}

#[test]
fn errors_hand_the_message_back() {
    let full: TrySendError<u8, u32> = TrySendError::Full(3);
    assert_eq!(full.into_inner(), 3);
    let gone: TrySendError<u8, u32> = TrySendError::Disconnected(4);
    assert_eq!(gone.with_message("m"), TrySendError::Disconnected("m"));
    let bad: SendError<u8, u32> = SendError::Error { message: 5, error: 6 };
    assert_eq!(bad.into_inner(), 5);
    let bad: SendError<u8, u32> = SendError::Error { message: 5, error: 6 };
    assert_eq!(bad.with_message('c'), SendError::Error { message: 'c', error: 6 });
    let gone: SendError<u8, u32> = SendError::Disconnected(4);
    assert_eq!(gone.into_inner(), 4);
}

// Two senders claim positions, and the second stores its index before the first
// one does. The receiver waits for the first.
#[test]
fn senders_that_overlap_keep_the_order_of_their_claims() {
    let mut slots: Vec<u16> = (0..64).map(|i| i << 6).collect();
    let (head, tail) = (0u16, 0u16);

    let CommitStep::Claim { tail, slot: first } = commit_step(tail, slots[0], 5) else {
        panic!("the first slot is free");
    };
    let CommitStep::Claim { tail, slot: second } =
        commit_step(tail, slots[slot_number(tail)], 9)
    else {
        panic!("the second slot is free");
    };
    assert_eq!(tail, 8);
    assert_eq!(first, (1 << 6) | 5);
    assert_eq!(second, (2 << 6) | 9);

    slots[1] = second;
    assert!(matches!(dequeue_step(head, slots[slot_number(head)]), DequeueStep::Empty));
    slots[0] = first;

    let DequeueStep::Claim { head, slot, idx } = dequeue_step(head, slots[slot_number(head)])
    else {
        panic!("the first message is there");
    };
    assert_eq!((head, slot, idx), (4, 64 << 6, 5));
    slots[0] = slot;
    let DequeueStep::Claim { head, idx, .. } = dequeue_step(head, slots[slot_number(head)])
    else {
        panic!("the second message is there");
    };
    assert_eq!((head, idx), (8, 9));

    // the slot that was handed back is free for the position one lap later, and
    // not before.
    let lap = 64 << 2;
    assert!(matches!(commit_step(lap, slots[0], 1), CommitStep::Claim { .. }));
    assert!(matches!(commit_step(lap, first, 1), CommitStep::Full));
    // whoever has missed that others moved on looks again.
    assert!(matches!(commit_step(0, first, 1), CommitStep::Retry));
}

// Frames pass unchanged, whatever the lengths of the runs between zeroes, and are
// decoded as the framing crates decode them.
#[test]
fn framed_messages_pass_unchanged() {
    let mut chan = TrickyPipe::<Vec<u8>, ()>::new(2);
    let rx = chan.ser_receiver("Vec<u8>").unwrap();
    let tx = chan.deser_sender("Vec<u8>");
    for len in [0usize, 1, 252, 253, 254, 255, 256, 509, 600] {
        for zero in [false, true] {
            let message: Vec<u8> = (0..len)
                .map(|i| if zero && i % 7 == 0 { 0 } else { 1 + (i % 255) as u8 })
                .collect();
            let mut frame = postcard::to_allocvec_cobs(&message).unwrap();
            assert_eq!(tx.try_send_framed(&mut chan, &frame), Ok(()));
            assert_eq!(tx.poll_send_framed(&mut chan, &frame), Some(Ok(())));
            assert_eq!(tx.try_send_framed(&mut chan, &frame), Err(SerTrySendError::Full));
            for _ in 0..2 {
                let received = rx.try_recv(&mut chan).unwrap();
                assert_eq!(received.value(), &message);
                assert_eq!(received.to_vec_framed(), frame);
                received.drop(&mut chan);
            }
            assert_eq!(postcard::from_bytes_cobs::<Vec<u8>>(&mut frame).unwrap(), message);
        }
    }
    for bad in [&[][..], &[5, 1], &[0], &[1], &[4, 2, 9, 0], &[3, 5, 1, 0]] {
        let expected = match postcard::from_bytes_cobs::<Vec<u8>>(&mut bad.to_vec()) {
            Err(postcard::Error::DeserializeBadEncoding) => PostcardError::DeserializeBadEncoding,
            Err(postcard::Error::DeserializeUnexpectedEnd) => {
                PostcardError::DeserializeUnexpectedEnd
            }
            other => panic!("unexpected: {other:?}"),
        };
        assert_eq!(
            tx.try_send_framed(&mut chan, bad),
            Err(SerTrySendError::Deserialize(expected))
        );
        let permit = tx.try_reserve(&mut chan).unwrap();
        assert_eq!(permit.send_framed(&mut chan, bad), Err(expected));
        assert!(chan.is_empty());
    }
    assert_eq!(
        tx.try_send_framed(&mut chan, &[]),
        Err(SerTrySendError::Deserialize(PostcardError::DeserializeBadEncoding))
    );
    assert_eq!(
        tx.try_send_framed(&mut chan, &[0]),
        Err(SerTrySendError::Deserialize(PostcardError::DeserializeUnexpectedEnd))
    );
}

#[test]
fn tp3_messages_are_framed() {
    let mut chan = tp3::TrickyPipe::<u16>::new(2);
    let tx = chan.deser_sender("u16");
    let rx = chan.ser_receiver("u16").unwrap();
    assert!(rx.poll_recv(&mut chan).is_none());
    tx.try_send_framed(&mut chan, &[3, 0x80, 0x01, 0]).unwrap();
    let msg = rx.poll_recv(&mut chan).unwrap().unwrap();
    assert_eq!(msg.to_vec_framed(), vec![3, 0x80, 0x01, 0]);
    let mut buf = [9u8; 5];
    assert_eq!(msg.to_slice_framed(&mut buf).unwrap(), &[3, 0x80, 0x01, 0]);
    assert!(msg.to_slice_framed(&mut buf[..3]).is_err());
    msg.drop(&mut chan);
}
