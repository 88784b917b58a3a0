//! One-shot channels, and values that are shared to be serialized.
use mgnp::codec::{Codec, PostcardError};
use mgnp::tricky_pipe::oneshot::{
    Closed, DeserSendError, Oneshot, Receiver, RecvError, SenderError,
};
use mgnp::tricky_pipe::serbox::{SerBox, Sharer};

type DeserStruct = (String, usize);

#[test]
fn oneshot_basically_works() {
    let (rx, mut chan) = Receiver::new();
    let tx = rx.sender(&mut chan).ok().unwrap();
    assert_eq!(rx.poll_recv(&mut chan), None);
    assert!(chan.is_waiting());
    tx.send(&mut chan, 1).unwrap();
    assert_eq!(rx.poll_recv(&mut chan), Some(Ok(1)));
}

#[test]
fn recv_closed() {
    let (rx, mut chan) = Receiver::new();
    let tx = rx.sender(&mut chan).ok().unwrap();
    rx.close(&mut chan);
    assert_eq!(tx.send(&mut chan, 1), Err(Closed(1)));
    assert_eq!(rx.poll_recv(&mut chan), Some(Err(RecvError::Closed)));
    assert_eq!(rx.sender(&mut chan).err(), Some(SenderError::Closed));

    // a message that was sent before is dropped.
    let (rx, mut chan) = Receiver::new();
    let tx = rx.sender(&mut chan).ok().unwrap();
    tx.send(&mut chan, 1).unwrap();
    rx.close(&mut chan);
    assert_eq!(rx.poll_recv(&mut chan), Some(Err(RecvError::Closed)));
}

#[test]
fn reuse() {
    let (rx, mut chan) = Receiver::new();
    let tx = rx.sender(&mut chan).ok().unwrap();
    tx.send(&mut chan, 1).unwrap();
    assert_eq!(rx.poll_recv(&mut chan), Some(Ok(1)));
    let tx = rx.sender(&mut chan).ok().unwrap();
    tx.send(&mut chan, 2).unwrap();
    assert_eq!(rx.poll_recv(&mut chan), Some(Ok(2)));
}

#[test]
fn deserialize_tx() {
    let (rx, mut chan) = Receiver::<DeserStruct>::new();
    let tx = rx.deser_sender(&mut chan, "DeserStruct").ok().unwrap();
    let value = ("hello".to_string(), 1usize);
    let bytes = value.to_vec();
    tx.send(&mut chan, &bytes[..]).unwrap();
    assert_eq!(rx.poll_recv(&mut chan), Some(Ok(value)));

    let tx = rx.deser_sender(&mut chan, "DeserStruct").ok().unwrap();
    let value2 = ("world".to_string(), 100000usize);
    let bytes = value2.to_vec();
    tx.send(&mut chan, &bytes[..]).unwrap();
    assert_eq!(rx.poll_recv(&mut chan), Some(Ok(value2)));

    let tx = rx.deser_sender(&mut chan, "DeserStruct").ok().unwrap();
    assert_eq!(
        tx.send(&mut chan, &[5, 104]),
        Err(DeserSendError::Deserialize {
            error: PostcardError::DeserializeUnexpectedEnd,
            message_type: "DeserStruct",
        })
    );
    assert_eq!(rx.poll_recv(&mut chan), Some(Err(RecvError::NoSender)));
    let tx = rx.deser_sender(&mut chan, "DeserStruct").ok().unwrap();
    tx.send_framed(&mut chan, &[5, 2, 104, 105, 3, 0]).unwrap();
    assert_eq!(rx.poll_recv(&mut chan), Some(Ok(("hi".to_string(), 3))));
    let tx = rx.deser_sender(&mut chan, "DeserStruct").ok().unwrap();
    assert_eq!(
        tx.send_framed(&mut chan, &[9, 2, 0]),
        Err(DeserSendError::Deserialize {
            error: PostcardError::DeserializeBadEncoding,
            message_type: "DeserStruct",
        })
    );
    let tx = rx.deser_sender(&mut chan, "DeserStruct").ok().unwrap();
    rx.close(&mut chan);
    assert_eq!(tx.send_decoded(&mut chan, Ok(("x".into(), 1))), Err(DeserSendError::Closed));
}

#[test]
fn one_sender_at_a_time() {
    let mut chan = Oneshot::<u8>::new();
    let rx = chan.static_receiver().unwrap();
    assert!(chan.static_receiver().is_none());
    // looking for a message in vain does not keep a sender from being made.
    assert_eq!(rx.poll_recv(&mut chan), Some(Err(RecvError::NoSender)));
    let tx = rx.sender(&mut chan).ok().unwrap();
    assert_eq!(rx.sender(&mut chan).err(), Some(SenderError::SenderAlreadyActive));
    tx.drop(&mut chan);
    assert_eq!(rx.poll_recv(&mut chan), Some(Err(RecvError::NoSender)));
    let tx = rx.sender(&mut chan).ok().unwrap();
    tx.send(&mut chan, 3).unwrap();
    // a message that was not received is dropped when another sender is made.
    let tx = rx.sender(&mut chan).ok().unwrap();
    assert_eq!(rx.poll_recv(&mut chan), None);
    tx.send(&mut chan, 4).unwrap();
    assert_eq!(rx.poll_recv(&mut chan), Some(Ok(4)));
}

type SerStruct = (u8, (i16, (u32, String)));

fn basically_works(mut sharer: Sharer<SerStruct>, shared: &mut SerBox<SerStruct>) {
    let val1: SerStruct = (1, (2, (3, "hello".into())));
    let ser1 = val1.to_vec();
    let val2: SerStruct = (4, (5, (6, "world".into())));
    let ser2 = val2.to_vec();

    let cons = sharer
        .try_share(shared, val1)
        .ok()
        .expect("try_share should succeed while no consumer exists");
    let val2 = sharer
        .try_share(shared, val2)
        .err()
        .expect("a consumer exists, so try_share should fail");
    assert_eq!(cons.to_vec(shared), ser1);
    assert!(!cons.drop(shared));
    let cons = sharer
        .try_share(shared, val2)
        .ok()
        .expect("try_share should succeed now that the first consumer has been dropped");
    assert_eq!(cons.to_vec(shared), ser2);
    assert!(!sharer.drop(shared));
    assert!(cons.drop(shared));
}

#[test]
fn box_basically_works() {
    let mut serbox = Box::new(SerBox::<SerStruct>::new());
    let sharer = serbox.sharer();
    basically_works(sharer, &mut serbox);
    let (sharer, mut serbox) = Sharer::<SerStruct>::new();
    basically_works(sharer, &mut serbox);
}

#[test]
fn static_basically_works() {
    let mut serbox: SerBox<SerStruct> = SerBox::new();
    let sharer = serbox.static_sharer().expect("no static sharer has been claimed");
    basically_works(sharer, &mut serbox);
}

#[test]
fn static_is_reusable() {
    let mut serbox: SerBox<SerStruct> = SerBox::new();
    let mut sharer = serbox.static_sharer().expect("no sharer exists");
    assert!(
        serbox.static_sharer().is_none(),
        "new Sharer should not be created while Sharer exists"
    );
    let val1: SerStruct = (1, (2, (3, "hello".into())));
    let consumer = sharer
        .try_share(&mut serbox, val1)
        .ok()
        .expect("try_share should succeed while no Consumer exists");
    sharer.drop(&mut serbox);
    assert!(
        serbox.static_sharer().is_none(),
        "new Sharer should not be created while Consumer exists"
    );
    consumer.drop(&mut serbox);
    let _sharer = serbox.static_sharer().expect(
        "new Sharer can be created now that both Sharer and Consumer have been dropped",
    );
    assert!(
        serbox.static_sharer().is_none(),
        "new Sharer should not be created while Sharer exists"
    );
}

#[test]
fn cross_thread_sharing() {
    let mut serbox = SerBox::<SerStruct>::new();
    let mut sharer = serbox.sharer();
    let val1: SerStruct = (1, (2, (3, "hello".into())));
    let ser1 = val1.to_vec();
    let val2: SerStruct = (4, (5, (6, "world".into())));
    let ser2 = val2.to_vec();
    let cons = sharer.try_share(&mut serbox, val1).ok().unwrap();
    // the sharer has to wait until the consumer is done.
    let val2 = sharer.try_share(&mut serbox, val2).err().unwrap();
    assert_eq!(cons.to_vec(&serbox), ser1);
    cons.drop(&mut serbox);
    let cons = sharer.try_share(&mut serbox, val2).ok().unwrap();
    assert_eq!(cons.to_vec(&serbox), ser2);
    let mut buf = [0u8; 16];
    assert_eq!(cons.to_slice(&serbox, &mut buf).unwrap(), &ser2[..]);
    assert_eq!(
        cons.to_slice(&serbox, &mut buf[..3]),
        Err(PostcardError::SerializeBufferFull)
    );
    let framed = cons.to_vec_framed(&serbox);
    assert_eq!(framed, vec![10, 4, 10, 6, 5, 119, 111, 114, 108, 100, 0]);
    assert_eq!(cons.to_slice_framed(&serbox, &mut buf).unwrap(), &framed[..]);
    cons.drop(&mut serbox);
}

#[test]
fn debug_impls() {
    let mut serbox = Box::new(SerBox::<SerStruct>::new());
    println!("{serbox:?}");
    let mut sharer = serbox.sharer();
    println!("{sharer:?}");
    let cons = sharer.try_share(&mut serbox, (1, (2, (3, "hello".into()))));
    println!("{cons:?}");
}
