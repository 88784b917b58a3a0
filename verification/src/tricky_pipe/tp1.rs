//! Pipes over a bounded queue, which send and receive items as they are or as
//! serialized bytes.
use super::spitebuf::{MpScQueue, QueueView, Stage};
use crate::codec::{from_bytes, to_slice, Codec};
use core::marker::PhantomData;
use vstd::prelude::*;

verus! {

/// Sends items.
pub struct Sender<T> {
    marker: PhantomData<T>,
}

/// Sends items that are given as serialized bytes.
pub struct RefSender {
    marker: PhantomData<u8>,
}

/// Sends items that are given as vectors of serialized bytes.
pub struct VecSender {
    marker: PhantomData<u8>,
}

/// Receives items.
pub struct Receiver<T> {
    marker: PhantomData<T>,
}

/// Receives items as serialized bytes.
pub struct RefReceiver {
    marker: PhantomData<u8>,
}

/// Receives items as vectors of serialized bytes.
pub struct VecReceiver {
    marker: PhantomData<u8>,
}

/// Why an item could not be received.
#[derive(Debug, PartialEq, Eq)]
pub enum RecvError {
    /// There is none.
    Oops,
}

/// The queue after its receiver is gone.
pub open spec fn after_receiver<T>(q: QueueView<T>) -> QueueView<T> {
    if q.stage is Split {
        QueueView { stage: Stage::Closed, ..q }
    } else {
        q
    }
}

fn close<T>(q: &mut MpScQueue<T>)
    requires
        old(q).wf(),
    ensures
        final(q).wf(),
        final(q)@ == after_receiver(old(q)@),
{
    if q.is_open() {
        q.close();
    }
}

impl<T> Sender<T> {
    /// Sends an item. If that is not possible, the item is handed back.
    pub fn send(&self, q: &mut MpScQueue<T>, t: T) -> (r: Result<(), T>)
        requires
            old(q).wf(),
        ensures
            final(q).wf(),
            match r {
                Ok(_) => old(q)@.enqueue_error(t) is None,
                Err(back) => old(q)@.enqueue_error(t) is Some && back == t,
            },
            final(q)@ == old(q)@.after_enqueue(t),
    {
        match q.enqueue_sync(t) {
            Ok(_) => Ok(()),
            Err(e) => Err(e.into_inner()),
        }
    }
}

impl RefSender {
    /// Sends the item that `sli` stands for.
    pub fn send_slice<T: Codec>(&self, q: &mut MpScQueue<T>, sli: &[u8]) -> (r: Result<(), ()>)
        requires
            old(q).wf(),
        ensures
            final(q).wf(),
            match T::decoding(sli@) {
                Ok((value, rest)) => exists|t: T| #[trigger]
                    t@ == value && final(q)@ == old(q)@.after_enqueue(t) && (r is Ok <==> old(
                        q,
                    )@.enqueue_error(t) is None),
                Err(_) => r is Err && final(q)@ == old(q)@,
            },
    {
        match from_bytes::<T>(sli) {
            Ok(t) => match q.enqueue_sync(t) {
                Ok(_) => Ok(()),
                Err(_) => Err(()),
            },
            Err(_) => Err(()),
        }
    }
}

impl VecSender {
    /// Sends the item that `vec_in` stands for. If that is not possible, the bytes
    /// are handed back.
    pub fn send<T: Codec>(&self, q: &mut MpScQueue<T>, vec_in: Vec<u8>) -> (r: Result<(), Vec<u8>>)
        requires
            old(q).wf(),
        ensures
            final(q).wf(),
            match T::decoding(vec_in@) {
                Ok((value, rest)) => exists|t: T| #[trigger]
                    t@ == value && final(q)@ == old(q)@.after_enqueue(t) && (r is Ok <==> old(
                        q,
                    )@.enqueue_error(t) is None),
                Err(_) => r is Err && final(q)@ == old(q)@,
            },
            r matches Err(back) ==> back == vec_in,
    {
        match from_bytes::<T>(vec_in.as_slice()) {
            Ok(t) => match q.enqueue_sync(t) {
                Ok(_) => Ok(()),
                Err(_) => Err(vec_in),
            },
            Err(_) => Err(vec_in),
        }
    }
}

impl<T> Receiver<T> {
    /// Receives an item.
    pub fn recv(&self, q: &mut MpScQueue<T>) -> (r: Result<T, RecvError>)
        requires
            old(q).wf(),
            !(old(q)@.stage is Uninit),
        ensures
            final(q).wf(),
            r == match old(q)@.front() {
                Some(t) => Ok::<T, RecvError>(t),
                None => Err(RecvError::Oops),
            },
            final(q)@ == old(q)@.after_dequeue(),
    {
        match q.dequeue_sync() {
            Some(t) => Ok(t),
            None => Err(RecvError::Oops),
        }
    }

    /// Drops the receiver: from then on, nothing can be sent.
    pub fn drop(self, q: &mut MpScQueue<T>)
        requires
            old(q).wf(),
        ensures
            final(q).wf(),
            final(q)@ == after_receiver(old(q)@),
    {
        close(q);
    }
}

impl RefReceiver {
    /// Receives an item, serializes it into the front of `sli`, and returns that
    /// part of `sli`. An item that does not fit is lost.
    pub fn recv_slice<'a, T: Codec>(&self, q: &mut MpScQueue<T>, sli: &'a mut [u8]) -> (r: Result<
        &'a mut [u8],
        (),
    >)
        requires
            old(q).wf(),
            !(old(q)@.stage is Uninit),
        ensures
            final(q).wf(),
            final(q)@ == old(q)@.after_dequeue(),
            match old(q)@.front() {
                Some(t) => {
                    let enc = T::encoding(t@);
                    if enc.len() <= old(sli)@.len() {
                        &&& r matches Ok(used)
                        &&& used@ == enc
                        &&& final(sli)@ == final(used)@ + old(sli)@.skip(enc.len() as int)
                    } else {
                        r is Err && final(sli)@ == old(sli)@
                    }
                },
                None => r is Err && final(sli)@ == old(sli)@,
            },
    {
        match q.dequeue_sync() {
            Some(t) => match to_slice(&t, sli) {
                Ok(used) => Ok(used),
                Err(_) => Err(()),
            },
            None => Err(()),
        }
    }

    /// Drops the receiver: from then on, nothing can be sent.
    pub fn drop<T>(self, q: &mut MpScQueue<T>)
        requires
            old(q).wf(),
        ensures
            final(q).wf(),
            final(q)@ == after_receiver(old(q)@),
    {
        close(q);
    }
}

impl VecReceiver {
    /// Receives an item, and serializes it.
    pub fn recv<T: Codec>(&self, q: &mut MpScQueue<T>) -> (r: Result<Vec<u8>, RecvError>)
        requires
            old(q).wf(),
            !(old(q)@.stage is Uninit),
        ensures
            final(q).wf(),
            final(q)@ == old(q)@.after_dequeue(),
            match old(q)@.front() {
                Some(t) => r matches Ok(vec_out) && vec_out@ == T::encoding(t@),
                None => r == Err::<Vec<u8>, RecvError>(RecvError::Oops),
            },
    {
        match q.dequeue_sync() {
            Some(t) => Ok(t.to_vec()),
            None => Err(RecvError::Oops),
        }
    }

    /// Drops the receiver: from then on, nothing can be sent.
    pub fn drop<T>(self, q: &mut MpScQueue<T>)
        requires
            old(q).wf(),
        ensures
            final(q).wf(),
            final(q)@ == after_receiver(old(q)@),
    {
        close(q);
    }
}

/// Sets up a queue, and returns its two ends.
pub fn channel<T>(q: &mut MpScQueue<T>) -> (r: (Sender<T>, Receiver<T>))
    requires
        old(q).wf(),
        old(q)@.stage is Uninit,
        super::ring::is_capacity(old(q)@.capacity),
    ensures
        final(q).wf(),
        final(q)@ == (QueueView { stage: Stage::Split, ..old(q)@ }),
{
    let _ = q.init_split();
    (Sender { marker: PhantomData }, Receiver { marker: PhantomData })
}

/// Sets up a queue of frames, and returns its two ends.
pub fn frame_channel(q: &mut MpScQueue<Vec<u8>>) -> (r: (Sender<Vec<u8>>, Receiver<Vec<u8>>))
    requires
        old(q).wf(),
        old(q)@.stage is Uninit,
        super::ring::is_capacity(old(q)@.capacity),
    ensures
        final(q).wf(),
        final(q)@ == (QueueView { stage: Stage::Split, ..old(q)@ }),
{
    channel(q)
}

/// Sets up a queue, and returns its two ends, of which the receiver serializes
/// the items into vectors.
pub fn ser_channel<T: Codec>(q: &mut MpScQueue<T>) -> (r: (Sender<T>, VecReceiver))
    requires
        old(q).wf(),
        old(q)@.stage is Uninit,
        super::ring::is_capacity(old(q)@.capacity),
    ensures
        final(q).wf(),
        final(q)@ == (QueueView { stage: Stage::Split, ..old(q)@ }),
{
    let _ = q.init_split();
    (Sender { marker: PhantomData }, VecReceiver { marker: PhantomData })
}

/// Sets up a queue, and returns its two ends, of which the sender is given
/// vectors of serialized items.
pub fn deser_channel<T: Codec>(q: &mut MpScQueue<T>) -> (r: (VecSender, Receiver<T>))
    requires
        old(q).wf(),
        old(q)@.stage is Uninit,
        super::ring::is_capacity(old(q)@.capacity),
    ensures
        final(q).wf(),
        final(q)@ == (QueueView { stage: Stage::Split, ..old(q)@ }),
{
    let _ = q.init_split();
    (VecSender { marker: PhantomData }, Receiver { marker: PhantomData })
}

/// Sets up a queue, and returns its two ends, of which the receiver serializes
/// the items.
pub fn ser_ref_channel<T: Codec>(q: &mut MpScQueue<T>) -> (r: (Sender<T>, RefReceiver))
    requires
        old(q).wf(),
        old(q)@.stage is Uninit,
        super::ring::is_capacity(old(q)@.capacity),
    ensures
        final(q).wf(),
        final(q)@ == (QueueView { stage: Stage::Split, ..old(q)@ }),
{
    let _ = q.init_split();
    (Sender { marker: PhantomData }, RefReceiver { marker: PhantomData })
}

/// Sets up a queue, and returns its two ends, of which the sender is given
/// serialized items.
pub fn deser_ref_channel<T: Codec>(q: &mut MpScQueue<T>) -> (r: (RefSender, Receiver<T>))
    requires
        old(q).wf(),
        old(q)@.stage is Uninit,
        super::ring::is_capacity(old(q)@.capacity),
    ensures
        final(q).wf(),
        final(q)@ == (QueueView { stage: Stage::Split, ..old(q)@ }),
{
    let _ = q.init_split();
    (RefSender { marker: PhantomData }, Receiver { marker: PhantomData })
}

/// When the receiver is gone, a queue that was in use is closed, and takes nothing more; a
/// queue that was not stays as it is. What is in the queue stays.
pub proof fn queues_close_with_their_receiver<T>(q: QueueView<T>)
    ensures
        after_receiver(q).items == q.items && after_receiver(q).capacity == q.capacity,
        q.stage is Split ==> after_receiver(q).stage is Closed,
        !(q.stage is Split) ==> after_receiver(q).stage == q.stage,
{
}

} // verus!
