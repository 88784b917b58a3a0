//! Values that are shared to be serialized.
//!
//! A [`SerBox`] is a place for one value. Its [`Sharer`] puts a value there, and
//! the [`Consumer`] that it gets for it serializes the value, without the sharer's
//! having to wait for it. When the consumer is dropped, so is the value, and the
//! sharer may share another.
use crate::codec::{
    cobs, decoding_framed, to_slice, to_slice_framed, to_vec_framed, Codec, PostcardError,
};
use core::marker::PhantomData;
use vstd::prelude::*;

verus! {

/// Nobody uses the box.
pub const NEW: u8 = 0;

/// The box has a sharer.
pub const HAS_SHARER: u8 = 1;

/// The box holds a value of its sharer.
pub const HAS_DATA: u8 = 2;

/// The box has a consumer.
pub const HAS_CONSUMER: u8 = 4;

/// The sharer shares a value with a consumer.
pub const SHARED: u8 = 7;

/// A place for a value that is shared.
#[derive(Debug)]
#[must_use]
pub struct SerBox<T> {
    state: u8,
    data: Option<T>,
}

/// Shares values, one at a time.
#[derive(Debug)]
#[must_use]
pub struct Sharer<T> {
    marker: PhantomData<T>,
}

/// Serializes a value that is shared.
#[derive(Debug)]
#[must_use]
pub struct Consumer<T> {
    marker: PhantomData<T>,
}

/// Who uses a box.
pub struct SerBoxView<T> {
    /// Whether there is a sharer.
    pub has_sharer: bool,
    /// The value that is shared with a consumer.
    pub shared: Option<T>,
}

proof fn lemma_states()
    ensures
        1u8 & !(HAS_SHARER | HAS_DATA) == 0,
        7u8 & !(HAS_SHARER | HAS_DATA) == 4,
        7u8 & !HAS_CONSUMER & !HAS_DATA == 1,
        4u8 & !HAS_CONSUMER & !HAS_DATA == 0,
        1u8 & HAS_CONSUMER == 0,
        7u8 & HAS_CONSUMER != 0,
        7u8 & HAS_SHARER != 0,
        4u8 & HAS_SHARER == 0,
{
    assert(1u8 & !(1u8 | 2u8) == 0 && 7u8 & !(1u8 | 2u8) == 4 && 7u8 & !4u8 & !2u8 == 1 && 4u8
        & !4u8 & !2u8 == 0 && 1u8 & 4u8 == 0 && 7u8 & 4u8 != 0 && 7u8 & 1u8 != 0 && 4u8 & 1u8
        == 0) by (bit_vector);
}

impl<T> View for SerBox<T> {
    type V = SerBoxView<T>;

    closed spec fn view(&self) -> SerBoxView<T> {
        SerBoxView { has_sharer: self.state == HAS_SHARER || self.state == SHARED, shared: self.data }
    }
}

impl<T> SerBox<T> {
    /// The state tells whether there is a value.
    pub closed spec fn wf(self) -> bool {
        match self.data {
            Some(_) => self.state == SHARED || self.state == HAS_CONSUMER,
            None => self.state == HAS_SHARER || self.state == NEW,
        }
    }

    /// A box that nobody uses.
    pub fn new() -> (r: SerBox<T>)
        ensures
            r.wf(),
            r@ == (SerBoxView::<T> { has_sharer: false, shared: None }),
    {
        SerBox { state: NEW, data: None }
    }

    /// The sharer of the box, unless it has one, or a value that was shared is
    /// still in use.
    pub fn static_sharer(&mut self) -> (r: Option<Sharer<T>>)
        requires
            old(self).wf(),
        ensures
            final(self).wf(),
            r is Some <==> !old(self)@.has_sharer && old(self)@.shared is None,
            final(self)@ == (SerBoxView {
                has_sharer: old(self)@.has_sharer || r is Some,
                ..old(self)@
            }),
    {
        if self.state == NEW {
            self.state = HAS_SHARER;
            Some(Sharer { marker: PhantomData })
        } else {
            None
        }
    }

    /// The sharer of a box that nobody uses.
    pub fn sharer(&mut self) -> (r: Sharer<T>)
        requires
            old(self).wf(),
            !old(self)@.has_sharer,
            old(self)@.shared is None,
        ensures
            final(self).wf(),
            final(self)@ == (SerBoxView { has_sharer: true, ..old(self)@ }),
    {
        self.state = HAS_SHARER;
        Sharer { marker: PhantomData }
    }

    /// Puts a value into the box, unless there is one. Then the new value is
    /// handed back.
    fn try_share(&mut self, value: T) -> (r: Result<(), T>)
        requires
            old(self).wf(),
            old(self)@.has_sharer,
        ensures
            final(self).wf(),
            match r {
                Ok(_) => {
                    &&& old(self)@.shared is None
                    &&& final(self)@ == (SerBoxView { shared: Some(value), ..old(self)@ })
                },
                Err(v) => old(self)@.shared is Some && v == value && final(self)@ == old(self)@,
            },
    {
        if self.state != HAS_SHARER {
            return Err(value);
        }
        self.state = SHARED;
        self.data = Some(value);
        Ok(())
    }
}

impl<T> Sharer<T> {
    /// A sharer, and the box that it belongs to.
    pub fn new() -> (r: (Sharer<T>, SerBox<T>))
        ensures
            r.1.wf(),
            r.1@ == (SerBoxView::<T> { has_sharer: true, shared: None }),
    {
        (Sharer { marker: PhantomData }, SerBox { state: HAS_SHARER, data: None })
    }

    /// Shares `value`, unless another is still in use. Then it is handed back.
    pub fn try_share(&mut self, shared: &mut SerBox<T>, value: T) -> (r: Result<Consumer<T>, T>)
        requires
            old(shared).wf(),
            old(shared)@.has_sharer,
        ensures
            final(shared).wf(),
            match r {
                Ok(_) => {
                    &&& old(shared)@.shared is None
                    &&& final(shared)@ == (SerBoxView { shared: Some(value), ..old(shared)@ })
                },
                Err(v) => {
                    &&& old(shared)@.shared is Some
                    &&& v == value
                    &&& final(shared)@ == old(shared)@
                },
            },
    {
        match shared.try_share(value) {
            Ok(_) => Ok(Consumer { marker: PhantomData }),
            Err(value) => Err(value),
        }
    }

    /// Drops the sharer. A value that was shared stays until its consumer is
    /// dropped. Returns whether nobody uses the box any more.
    pub fn drop(self, shared: &mut SerBox<T>) -> (r: bool)
        requires
            old(shared).wf(),
            old(shared)@.has_sharer,
        ensures
            final(shared).wf(),
            r == old(shared)@.shared is None,
            final(shared)@ == (SerBoxView { has_sharer: false, ..old(shared)@ }),
    {
        proof {
            lemma_states();
        }
        let state: u8 = shared.state;
        shared.state = state & !(HAS_SHARER | HAS_DATA);
        // if there's no consumer, the box can be disposed of.
        state & HAS_CONSUMER == 0
    }
}

impl<T: Codec> Consumer<T> {
    /// Serializes the value.
    pub fn to_vec(&self, shared: &SerBox<T>) -> (r: Vec<u8>)
        requires
            shared@.shared is Some,
        ensures
            r@ == T::encoding(shared@.shared->0@),
            T::encodable(shared@.shared->0@),
    {
        match &shared.data {
            Some(value) => value.to_vec(),
            None => Vec::new(),
        }
    }

    /// Serializes the value, and makes a frame of it.
    pub fn to_vec_framed(&self, shared: &SerBox<T>) -> (r: Vec<u8>)
        requires
            shared@.shared is Some,
        ensures
            r@ == cobs(T::encoding(shared@.shared->0@)),
            decoding_framed::<T>(r@) == Ok::<(T::V, Seq<u8>), PostcardError>(
                (shared@.shared->0@, Seq::empty()),
            ),
            r@.len() > 0,
            forall|i: int| 0 <= i < r@.len() ==> (#[trigger] r@[i] == 0 <==> i == r@.len() - 1),
    {
        match &shared.data {
            Some(value) => to_vec_framed(value),
            None => Vec::new(),
        }
    }

    /// Serializes the value into the front of `buf`, and returns that part of
    /// `buf`. If it does not fit, `buf` is left as it is.
    pub fn to_slice<'buf>(&self, shared: &SerBox<T>, buf: &'buf mut [u8]) -> (r: Result<
        &'buf mut [u8],
        PostcardError,
    >)
        requires
            shared@.shared is Some,
        ensures
            match r {
                Ok(used) => {
                    let enc = T::encoding(shared@.shared->0@);
                    &&& enc.len() <= old(buf)@.len()
                    &&& used@ == enc
                    &&& final(buf)@ == final(used)@ + old(buf)@.skip(enc.len() as int)
                },
                Err(e) => {
                    &&& T::encoding(shared@.shared->0@).len() > old(buf)@.len()
                    &&& e == PostcardError::SerializeBufferFull
                    &&& final(buf)@ == old(buf)@
                },
            },
    {
        match &shared.data {
            Some(value) => to_slice(value, buf),
            None => Err(PostcardError::SerializeBufferFull),
        }
    }

    /// Serializes the value, makes a frame of it at the front of `buf`, and
    /// returns that part of `buf`. If it does not fit, `buf` is left as it is.
    pub fn to_slice_framed<'buf>(&self, shared: &SerBox<T>, buf: &'buf mut [u8]) -> (r: Result<
        &'buf mut [u8],
        PostcardError,
    >)
        requires
            shared@.shared is Some,
        ensures
            match r {
                Ok(used) => {
                    let frame = cobs(T::encoding(shared@.shared->0@));
                    &&& frame.len() <= old(buf)@.len()
                    &&& used@ == frame
                    &&& final(buf)@ == final(used)@ + old(buf)@.skip(frame.len() as int)
                },
                Err(e) => {
                    &&& cobs(T::encoding(shared@.shared->0@)).len() > old(buf)@.len()
                    &&& e == PostcardError::SerializeBufferFull
                    &&& final(buf)@ == old(buf)@
                },
            },
    {
        match &shared.data {
            Some(value) => to_slice_framed(value, buf),
            None => Err(PostcardError::SerializeBufferFull),
        }
    }
}

impl<T> Consumer<T> {
    /// The value.
    pub fn value<'a>(&self, shared: &'a SerBox<T>) -> (r: Option<&'a T>)
        ensures
            match r {
                Some(value) => shared@.shared == Some(*value),
                None => shared@.shared is None,
            },
    {
        match &shared.data {
            Some(value) => Some(value),
            None => None,
        }
    }

    /// Drops the consumer, and with it the value. Returns whether nobody uses the
    /// box any more; if somebody does, it is the sharer, which may share another
    /// value now.
    pub fn drop(self, shared: &mut SerBox<T>) -> (r: bool)
        requires
            old(shared).wf(),
            old(shared)@.shared is Some,
        ensures
            final(shared).wf(),
            r == !old(shared)@.has_sharer,
            final(shared)@ == (SerBoxView { shared: None, ..old(shared)@ }),
    {
        proof {
            lemma_states();
        }
        let state: u8 = shared.state;
        shared.state = state & !HAS_CONSUMER & !HAS_DATA;
        shared.data = None;
        state & HAS_SHARER == 0
    }
}

/// Whether a sharer may be made for the box.
pub open spec fn claimable<T>(shared: SerBoxView<T>) -> bool {
    !shared.has_sharer && shared.shared is None
}

/// A box can be used again once both its sharer and its consumer were dropped,
/// and not before, in whatever order they are.
pub proof fn boxes_can_be_reused<T>(shared: SerBoxView<T>)
    requires
        shared.has_sharer,
        shared.shared is Some,
    ensures
        ({
            let no_sharer = SerBoxView { has_sharer: false, ..shared };
            let no_consumer = SerBoxView { shared: None, ..shared };
            &&& !claimable(shared)
            &&& !claimable(no_sharer)
            &&& !claimable(no_consumer)
            &&& claimable(SerBoxView { shared: None, ..no_sharer })
            &&& SerBoxView { has_sharer: false, ..no_consumer } == SerBoxView {
                shared: None,
                ..no_sharer
            }
        }),
{
}

} // verus!
