//! Channels in storage of a fixed size.
use mgnp::tricky_pipe::error::{SendError, SerTrySendError, TryRecvError, TrySendError};
use mgnp::tricky_pipe::static_impl::{StaticTrickyPipe, MAX_CAPACITY};
use std::mem::size_of_val;

type SerStruct = (u8, (i16, (u32, String)));

#[derive(Debug, PartialEq)]
struct UnSerStruct {
    a: u8,
    b: i16,
    c: u32,
    d: String,
}

const MSG_ONE: &[u8] = &[240, 223, 93, 160, 141, 6, 5, 104, 101, 108, 108, 111];
const MSG_TWO: &[u8] = &[20, 255, 124, 192, 154, 12, 6, 103, 114, 101, 101, 116, 115];
const MSG_THREE: &[u8] = &[100, 207, 15, 224, 167, 18, 5, 111, 104, 32, 109, 121];

fn three_unser() -> Vec<UnSerStruct> {
    vec![
        UnSerStruct { a: 240, b: -6_000, c: 100_000, d: String::from("hello") },
        UnSerStruct { a: 20, b: -8000, c: 200_000, d: String::from("greets") },
        UnSerStruct { a: 100, b: -1_000, c: 300_000, d: String::from("oh my") },
    ]
}

fn three_ser() -> Vec<SerStruct> {
    three_unser().into_iter().map(|s| (s.a, (s.b, (s.c, s.d)))).collect()
}

#[test]
fn static_impl_normal_smoke() {
    let mut chan: StaticTrickyPipe<UnSerStruct, 4> = StaticTrickyPipe::new();
    let tx = chan.sender();
    let rx = chan.receiver().unwrap();
    for msg in three_unser() {
        tx.try_reserve(&mut chan).ok().unwrap().send(&mut chan, msg);
    }
    for msg in three_unser() {
        assert_eq!(rx.try_recv(&mut chan).unwrap(), msg);
    }
}

#[test]
fn static_impl_normal_closed_rx() {
    let mut chan: StaticTrickyPipe<UnSerStruct, 4> = StaticTrickyPipe::new();
    let tx = chan.sender();
    let rx = chan.receiver().unwrap();
    rx.drop(&mut chan);
    assert_eq!(tx.try_reserve(&mut chan).err().unwrap(), TrySendError::Closed(()));
    assert!(matches!(tx.poll_reserve(&mut chan), Some(Err(SendError(())))));
}

#[test]
fn static_impl_ser_smoke() {
    let mut chan: StaticTrickyPipe<SerStruct, 4> = StaticTrickyPipe::new();
    let tx = chan.sender();
    let rx = chan.ser_receiver("SerStruct").unwrap();
    for msg in three_ser() {
        tx.try_reserve(&mut chan).ok().unwrap().send(&mut chan, msg);
    }
    for bytes in [MSG_ONE, MSG_TWO, MSG_THREE] {
        let msg = rx.try_recv(&mut chan).ok().unwrap();
        assert_eq!(msg.to_vec(), bytes);
        msg.drop(&mut chan);
    }
}

#[test]
fn static_impl_ser_closed_rx() {
    let mut chan: StaticTrickyPipe<SerStruct, 4> = StaticTrickyPipe::new();
    let tx = chan.sender();
    let rx = chan.ser_receiver("SerStruct").unwrap();
    rx.drop(&mut chan);
    assert_eq!(tx.try_reserve(&mut chan).err().unwrap(), TrySendError::Closed(()));
}

#[test]
fn static_impl_ser_ref_smoke() {
    let mut chan: StaticTrickyPipe<SerStruct, 4> = StaticTrickyPipe::new();
    let tx = chan.sender();
    let rx = chan.ser_receiver("SerStruct").unwrap();
    for msg in three_ser() {
        tx.try_reserve(&mut chan).ok().unwrap().send(&mut chan, msg);
    }
    let mut buf = [0u8; 128];
    for bytes in [MSG_ONE, MSG_TWO, MSG_THREE] {
        let msg = rx.try_recv(&mut chan).ok().unwrap();
        assert_eq!(msg.to_slice(&mut buf).unwrap(), bytes);
        msg.drop(&mut chan);
    }
}

#[test]
fn static_impl_deser_smoke() {
    let mut chan: StaticTrickyPipe<SerStruct, 4> = StaticTrickyPipe::new();
    let tx = chan.deser_sender("SerStruct");
    let rx = chan.receiver().unwrap();
    for bytes in [MSG_ONE, MSG_TWO, MSG_THREE] {
        tx.try_send(&mut chan, bytes).unwrap();
    }
    for msg in three_ser() {
        assert_eq!(rx.try_recv(&mut chan).unwrap(), msg);
    }
}

#[test]
fn static_impl_deser_closed_rx() {
    let mut chan: StaticTrickyPipe<SerStruct, 4> = StaticTrickyPipe::new();
    let tx = chan.deser_sender("SerStruct");
    let rx = chan.receiver().unwrap();
    rx.drop(&mut chan);
    let res = tx.try_send(&mut chan, MSG_ONE);
    assert_eq!(res.unwrap_err(), SerTrySendError::Send(TrySendError::Closed(())));
}

#[test]
fn static_impl_deser_ser_smoke() {
    let mut chan: StaticTrickyPipe<SerStruct, 4> = StaticTrickyPipe::new();
    let tx = chan.deser_sender("SerStruct");
    let rx = chan.ser_receiver("SerStruct").unwrap();
    for bytes in [MSG_ONE, MSG_TWO, MSG_THREE] {
        tx.try_send(&mut chan, bytes).unwrap();
    }
    let mut buf = [0u8; 128];
    for bytes in [MSG_ONE, MSG_TWO, MSG_THREE] {
        let msg = rx.try_recv(&mut chan).ok().unwrap();
        assert_eq!(msg.to_slice(&mut buf).unwrap(), bytes);
        msg.drop(&mut chan);
    }
}

#[test]
fn a_static_channel_stays_open() {
    // senders can be made from the channel at any time, so it does not close when
    // they are dropped.
    let mut chan: StaticTrickyPipe<u8, 2> = StaticTrickyPipe::new();
    let tx = chan.sender();
    let rx = chan.receiver().unwrap();
    assert!(!tx.drop(&mut chan));
    assert_eq!(rx.try_recv(&mut chan), Err(TryRecvError::Empty));
    assert_eq!(rx.poll_recv(&mut chan), None);
    let tx = chan.sender();
    tx.try_send(&mut chan, 1).unwrap();
    tx.try_send(&mut chan, 2).unwrap();
    assert!(tx.is_full(&chan));
    let err = tx.try_send(&mut chan, 3).unwrap_err();
    assert_eq!(err, TrySendError::Full(3));
    assert_eq!(err.into_inner(), 3);
    assert_eq!(SendError(5).into_inner(), 5);
    assert_eq!(tx.remaining(&chan), 0);
    assert_eq!(rx.poll_recv(&mut chan), Some(Some(1)));
}

#[test]
fn smaller_capacities_are_smaller() {
    let big: StaticTrickyPipe<SerStruct, MAX_CAPACITY> = StaticTrickyPipe::new();
    let little: StaticTrickyPipe<SerStruct, 2> = StaticTrickyPipe::new();
    let big_size = size_of_val(&big);
    let little_size = size_of_val(&little);
    assert!(little_size < big_size);
}

#[test]
fn static_messages_are_framed() {
    let mut chan: StaticTrickyPipe<u16, 2> = StaticTrickyPipe::new();
    let tx = chan.deser_sender("u16");
    let rx = chan.ser_receiver("u16").unwrap();
    assert!(rx.poll_recv(&mut chan).is_none());
    tx.try_send_framed(&mut chan, &[3, 0x80, 0x01, 0]).unwrap();
    let msg = rx.poll_recv(&mut chan).unwrap().unwrap();
    assert_eq!(msg.to_vec(), vec![0x80, 0x01]);
    assert_eq!(msg.to_vec_framed(), vec![3, 0x80, 0x01, 0]);
    let mut buf = [9u8; 5];
    assert_eq!(msg.to_slice_framed(&mut buf).unwrap(), &[3, 0x80, 0x01, 0]);
    assert!(msg.to_slice_framed(&mut buf[..3]).is_err());
    msg.drop(&mut chan);
    assert!(chan.sender().try_send(&mut chan, 7).is_ok());
}
