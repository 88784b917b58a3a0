//! Buffers for serialized messages.
use vstd::prelude::*;

verus! {

/// Hands out buffers.
pub trait FrameHolder {
    /// The buffers.
    type F: Frame;

    /// A buffer without bytes, if there is one.
    fn try_alloc(&self) -> (r: Option<Self::F>)
        ensures
            r matches Some(f) ==> f.bytes() == Seq::<u8>::empty(),
    ;
}

/// A buffer.
pub trait Frame {
    /// The bytes in the buffer.
    spec fn bytes(&self) -> Seq<u8>;

    /// The bytes in the buffer.
    fn as_slice(&self) -> (r: &[u8])
        ensures
            r@ == self.bytes(),
    ;

    /// The bytes in the buffer, to be changed.
    fn as_mut_slice(&mut self) -> (r: &mut [u8])
        ensures
            r@ == old(self).bytes(),
            final(self).bytes() == final(r)@,
    ;

    /// Makes the buffer hold `len` bytes: those beyond are dropped, and those
    /// that are missing are zeroes.
    fn set_len(&mut self, len: usize)
        ensures
            final(self).bytes() == with_len(old(self).bytes(), len as nat),
    ;
}

/// The first `len` of `bytes`, followed by zeroes if there are fewer.
pub open spec fn with_len(bytes: Seq<u8>, len: nat) -> Seq<u8> {
    Seq::new(
        len,
        |i: int|
            if i < bytes.len() {
                bytes[i]
            } else {
                0
            },
    )
}

/// Hands out buffers as long as there is memory.
pub struct VecFrameHolder;

/// A buffer that is allocated.
pub struct VecFrame {
    v: Vec<u8>,
}

impl FrameHolder for VecFrameHolder {
    type F = VecFrame;

    fn try_alloc(&self) -> (r: Option<VecFrame>)
        ensures
            r is Some,
    {
        Some(VecFrame { v: Vec::new() })
    }
}

impl Frame for VecFrame {
    closed spec fn bytes(&self) -> Seq<u8> {
        self.v@
    }

    fn as_slice(&self) -> (r: &[u8]) {
        self.v.as_slice()
    }

    fn as_mut_slice(&mut self) -> (r: &mut [u8]) {
        self.v.as_mut_slice()
    }

    fn set_len(&mut self, len: usize) {
        if self.v.len() > len {
            self.v.truncate(len);
        } else {
            while self.v.len() < len
                invariant
                    self.v@.len() <= len,
                    old(self).v@.len() <= self.v@.len(),
                    forall|i: int|
                        0 <= i < self.v@.len() ==> #[trigger] self.v@[i] == if i < old(
                            self,
                        ).v@.len() {
                            old(self).v@[i]
                        } else {
                            0
                        },
                decreases len - self.v@.len(),
            {
                self.v.push(0);
            }
        }
        assert(self.bytes() =~= with_len(old(self).bytes(), len as nat));
    }
}

/// Changing the length of a buffer keeps the bytes that fit.
pub proof fn bytes_that_fit_are_kept(bytes: Seq<u8>, len: nat)
    ensures
        with_len(bytes, len).len() == len,
        len <= bytes.len() ==> with_len(bytes, len) == bytes.take(len as int),
        len >= bytes.len() ==> with_len(bytes, len).take(bytes.len() as int) == bytes,
{
    if len <= bytes.len() {
        assert(with_len(bytes, len) =~= bytes.take(len as int));
    }
    if len >= bytes.len() {
        assert(with_len(bytes, len).take(bytes.len() as int) =~= bytes);
    }
}

/// Bytes that are added to a buffer are zeroes, and those before them are kept.
pub proof fn added_bytes_are_zeroes(bytes: Seq<u8>, len: nat, i: int)
    requires
        0 <= i < len,
    ensures
        with_len(bytes, len).len() == len,
        i < bytes.len() ==> with_len(bytes, len)[i] == bytes[i],
        i >= bytes.len() ==> with_len(bytes, len)[i] == 0,
{
}

} // verus!
