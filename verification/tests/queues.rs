//! Bounded queues, the pipes over them, buffers, and storage with a tail.
use mgnp::tricky_pipe::frame::{Frame, FrameHolder, VecFrameHolder};
use mgnp::tricky_pipe::index::IndexAllocWord;
use mgnp::tricky_pipe::ring::{cell_step, CellStep};
use mgnp::tricky_pipe::spitebuf::{self, DequeueError, EnqueueError, MpScQueue};
use mgnp::tricky_pipe::{tp1, tp2};

type SerStruct = (u8, (i16, (u32, String)));

const MSG_ONE: &[u8] = &[240, 223, 93, 160, 141, 6, 5, 104, 101, 108, 108, 111];
const MSG_TWO: &[u8] = &[20, 255, 124, 192, 154, 12, 6, 103, 114, 101, 101, 116, 115];
const MSG_THREE: &[u8] = &[100, 207, 15, 224, 167, 18, 5, 111, 104, 32, 109, 121];

fn three() -> Vec<SerStruct> {
    vec![
        (240, (-6_000, (100_000, String::from("hello")))),
        (20, (-8000, (200_000, String::from("greets")))),
        (100, (-1_000, (300_000, String::from("oh my")))),
    ]
}

fn queue() -> MpScQueue<SerStruct> {
    MpScQueue::new_uninit(spitebuf::cell_array::<4, SerStruct>())
}

#[test]
fn tp1_ser_ref_smoke() {
    let mut q = queue();
    let (tx, rx) = tp1::ser_ref_channel(&mut q);
    for msg in three() {
        tx.send(&mut q, msg).unwrap();
    }
    let mut buf = [0u8; 128];
    for bytes in [MSG_ONE, MSG_TWO, MSG_THREE] {
        assert_eq!(rx.recv_slice(&mut q, &mut buf).unwrap(), bytes);
    }
}

#[test]
fn ser_ref_closed_rx() {
    let mut q = queue();
    let (tx, rx) = tp1::ser_ref_channel(&mut q);
    rx.drop(&mut q);
    let msg = || (240, (-6_000, (100_000, String::from("hello"))));
    let res = tx.send(&mut q, msg());
    assert_eq!(res, Err(msg()));
}

#[test]
fn ser_ref_closed_tx() {
    let mut q = queue();
    let (tx, rx) = tp1::ser_ref_channel(&mut q);
    drop(tx);
    let mut buf = [0u8; 128];
    assert_eq!(rx.recv_slice(&mut q, &mut buf), Err(()));
}

#[test]
fn items_that_do_not_fit_are_lost() {
    let mut q = queue();
    let (tx, rx) = tp1::ser_ref_channel(&mut q);
    tx.send(&mut q, three().remove(0)).unwrap();
    let mut small = [0u8; 3];
    assert_eq!(rx.recv_slice(&mut q, &mut small), Err(()));
    let mut buf = [0u8; 128];
    assert_eq!(rx.recv_slice(&mut q, &mut buf), Err(()));
}

#[test]
fn serialized_items_are_received_as_they_are() {
    let mut q = queue();
    let (tx, rx) = tp1::deser_ref_channel(&mut q);
    for bytes in [MSG_ONE, MSG_TWO, MSG_THREE] {
        tx.send_slice(&mut q, bytes).unwrap();
    }
    assert_eq!(tx.send_slice(&mut q, &MSG_ONE[..4]), Err(()));
    for msg in three() {
        assert_eq!(rx.recv(&mut q), Ok(msg));
    }
    assert_eq!(rx.recv(&mut q), Err(tp1::RecvError::Oops));
    rx.drop(&mut q);
    assert_eq!(tx.send_slice(&mut q, MSG_ONE), Err(()));

    let mut q = MpScQueue::new_uninit(spitebuf::cell_array::<2, u8>());
    let (tx, rx) = tp1::channel(&mut q);
    tx.send(&mut q, 1).unwrap();
    assert_eq!(rx.recv(&mut q), Ok(1));
}

#[test]
fn queues_are_bounded_and_drain_after_close() {
    let mut q = MpScQueue::<u32>::new_uninit(spitebuf::cell_array::<4, u32>());
    assert_eq!(q.enqueue_sync(1), Err(EnqueueError::InternalError(1)));
    let (tx, rx) = q.init_split().unwrap();
    assert!(q.init_split().is_err());
    for lap in 0..100u32 {
        for i in 0..4 {
            tx.enqueue_sync(&mut q, lap * 4 + i).unwrap();
        }
        assert_eq!(tx.enqueue_sync(&mut q, 999), Err(EnqueueError::Full(999)));
        for i in 0..4 {
            assert_eq!(rx.dequeue_sync(&mut q), Some(lap * 4 + i));
        }
        assert_eq!(rx.poll_dequeue(&mut q), None);
    }
    tx.enqueue_sync(&mut q, 7).unwrap();
    q.close();
    assert_eq!(tx.enqueue_sync(&mut q, 8), Err(EnqueueError::Closed(8)));
    assert_eq!(rx.poll_dequeue(&mut q), Some(Ok(7)));
    assert_eq!(rx.poll_dequeue(&mut q), Some(Err(DequeueError::Closed)));
}

#[test]
fn large_queues_are_bounded() {
    let (tx, rx, mut pt) = tp2::arc_channel::<usize>(512);
    for i in 0..512 {
        tx.enqueue_sync(&mut pt, i).unwrap();
    }
    assert_eq!(tx.enqueue_sync(&mut pt, 512), Err(tp2::EnqueueError::Full(512)));
    for i in 0..512 {
        assert_eq!(rx.dequeue_sync(&mut pt), Some(i));
    }
    assert_eq!(rx.dequeue_sync(&mut pt), None);
    assert_eq!(pt.poll_dequeue(), None);
    let (_tx, rx, mut pt) = tp2::arc_reftx_channel::<u8>(2, "u8");
    assert_eq!(rx.dequeue_sync(&mut pt), None);
    let _cell: tp2::QCell<u8> = tp2::single_cell();
    assert_eq!(tp2::cell_array::<3, u8>().len(), 3);
}

#[test]
fn indices_are_the_lowest_that_are_free() {
    let mut word = IndexAllocWord::with_capacity(3);
    assert_eq!(word.capacity(), 3);
    assert_eq!(word.allocate(), Some(0));
    assert_eq!(word.allocate(), Some(1));
    assert_eq!(word.allocate(), Some(2));
    assert_eq!(word.allocate(), None);
    word.free(1);
    assert_eq!(word.allocate(), Some(1));
    let mut word = IndexAllocWord::with_capacity(64);
    for i in 0..64 {
        assert_eq!(word.allocate(), Some(i));
    }
    assert_eq!(word.allocate(), None);
    word.free(63);
    assert_eq!(word.allocate(), Some(63));
}

#[test]
fn buffers_change_their_length() {
    let mut frame = VecFrameHolder.try_alloc().unwrap();
    assert_eq!(frame.as_slice(), &[] as &[u8]);
    frame.set_len(3);
    assert_eq!(frame.as_slice(), &[0, 0, 0]);
    frame.as_mut_slice().copy_from_slice(&[1, 2, 3]);
    frame.set_len(5);
    assert_eq!(frame.as_slice(), &[1, 2, 3, 0, 0]);
    frame.set_len(2);
    assert_eq!(frame.as_slice(), &[1, 2]);
    frame.set_len(2);
    assert_eq!(frame.as_slice(), &[1, 2]);
}

#[test]
fn items_pass_as_vectors_of_bytes() {
    let mut q = queue();
    let (tx, rx) = tp1::ser_channel(&mut q);
    for msg in three() {
        tx.send(&mut q, msg).unwrap();
    }
    for bytes in [MSG_ONE, MSG_TWO, MSG_THREE] {
        assert_eq!(rx.recv(&mut q), Ok(bytes.to_vec()));
    }
    assert_eq!(rx.recv(&mut q), Err(tp1::RecvError::Oops));
    rx.drop(&mut q);
    assert!(tx.send(&mut q, three().remove(0)).is_err());

    let mut q = queue();
    let (tx, rx) = tp1::deser_channel(&mut q);
    for bytes in [MSG_ONE, MSG_TWO, MSG_THREE] {
        assert_eq!(tx.send(&mut q, bytes.to_vec()), Ok(()));
    }
    assert_eq!(tx.send(&mut q, vec![240, 223]), Err(vec![240, 223]));
    for msg in three() {
        assert_eq!(rx.recv(&mut q), Ok(msg));
    }
    rx.drop(&mut q);
    assert_eq!(tx.send(&mut q, MSG_ONE.to_vec()), Err(MSG_ONE.to_vec()));

    let mut q = MpScQueue::new_uninit(spitebuf::cell_array::<2, Vec<u8>>());
    let (tx, rx) = tp1::frame_channel(&mut q);
    tx.send(&mut q, vec![1, 2]).unwrap();
    assert_eq!(rx.recv(&mut q), Ok(vec![1, 2]));
}

// Two parties claim the cells of a ring of two, and the second stores its item
// before the first one does.
#[test]
fn overlapping_parties_find_their_cells() {
    let mut seqs = [0usize, 1];
    assert_eq!(cell_step(seqs[0], 0), CellStep::Ready);
    assert_eq!(cell_step(seqs[1], 1), CellStep::Ready);
    // there is no room for a third item.
    assert_eq!(cell_step(seqs[0], 2), CellStep::Wait);
    seqs[1] = 2;
    // the first item is not there yet.
    assert_eq!(cell_step(seqs[0], 1), CellStep::Wait);
    seqs[0] = 1;
    assert_eq!(cell_step(seqs[0], 1), CellStep::Ready);
    assert_eq!(cell_step(seqs[0], 2), CellStep::Wait);
    // whoever still wants to put the first item looks again.
    assert_eq!(cell_step(seqs[0], 0), CellStep::Retry);
    // the first item is taken, and its cell handed back.
    seqs[0] = 2;
    assert_eq!(cell_step(seqs[0], 2), CellStep::Ready);
    assert_eq!(cell_step(seqs[1], 2), CellStep::Ready);
    // positions wrap around.
    assert_eq!(cell_step(0, usize::MAX), CellStep::Retry);
    assert_eq!(cell_step(usize::MAX, 0), CellStep::Wait);
}
