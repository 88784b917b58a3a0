//! A header with a tail of items.
//!
//! Storage of this shape may be part of the program from the start, like a
//! channel on an embedded system, or it may be allocated and shared by counted
//! handles. Code that uses it need not know which. Items of the tail may be
//! absent; the header knows how to tear down the tail when the storage goes.
use vstd::arithmetic::power2::{
    is_pow2, is_pow2_equiv, lemma_pow2, lemma_pow2_adds, lemma_pow2_strictly_increases, pow2,
};
use vstd::layout::{align_of, size_of};
use vstd::prelude::*;

verus! {

/// Storage with a header and a tail.
pub trait Pluggable {
    /// The header.
    type Header: BodyDrop<Item = Self::Item>;

    /// The items of the tail.
    type Item;

    /// The header.
    spec fn header(&self) -> Self::Header;

    /// The tail.
    spec fn body(&self) -> Seq<Option<Self::Item>>;

    /// The header and the tail.
    fn storage(&self) -> (r: PlugDat<'_, Self::Header, Self::Item>)
        ensures
            *r.hdr == self.header(),
            r.t@ == self.body(),
    ;
}

/// How a header tears down the tail when the storage goes.
pub trait BodyDrop {
    /// The items of the tail.
    type Item;

    /// Whether a tail that was `before` is torn down when it is `after`. A header
    /// that does not say takes every tail for torn down.
    open spec fn torn_down(
        &self,
        before: Seq<Option<Self::Item>>,
        after: Seq<Option<Self::Item>>,
    ) -> bool {
        true
    }

    /// Tears down the tail.
    fn body_drop(&self, i: &mut [Option<Self::Item>])
        ensures
            self.torn_down(old(i)@, final(i)@),
    ;
}

/// The header and the tail of some storage.
pub struct PlugDat<'a, H, T> {
    pub hdr: &'a H,
    pub t: &'a [Option<T>],
}

/// The fixed part of some storage: the header, aligned so that items can follow
/// it.
pub struct PlugTail<H, T> {
    hdr: H,
    tail: [T; 0],
}

/// The header of storage that is shared: the number of handles, the number of
/// items, and the header proper.
pub struct ArcHdr<H> {
    strong: usize,
    len: usize,
    hdr: H,
}

/// Storage that is shared by counted handles.
#[verifier::reject_recursive_types(T)]
pub struct ArcPlugTail<H: BodyDrop<Item = T>, T> {
    pt: ArcHdr<H>,
    tail: Vec<Option<T>>,
}

/// The contents of storage that is shared.
pub struct ArcView<H, T> {
    /// The number of handles.
    pub strong: nat,
    /// The header.
    pub header: H,
    /// The tail.
    pub body: Seq<Option<T>>,
}

impl<H, T> ArcView<H, T> {
    /// The storage with `k` more handles.
    pub open spec fn after_clones(self, k: nat) -> ArcView<H, T> {
        ArcView { strong: self.strong + k, ..self }
    }

    /// What is left when a handle is dropped: nothing, if it is the last.
    pub open spec fn after_drop(self) -> Option<ArcView<H, T>> {
        if self.strong > 1 {
            Some(ArcView { strong: (self.strong - 1) as nat, ..self })
        } else {
            None
        }
    }

    /// What is left when `k` handles are dropped, one after the other.
    pub open spec fn after_drops(self, k: nat) -> Option<ArcView<H, T>>
        decreases k,
    {
        if k == 0 {
            Some(self)
        } else {
            match self.after_drops((k - 1) as nat) {
                Some(rest) => rest.after_drop(),
                None => None,
            }
        }
    }

    /// How many of the drops of `k` handles, one after the other, leave nothing: with
    /// each of these, the tail is torn down.
    pub open spec fn tear_downs(self, k: nat) -> nat
        decreases k,
    {
        if k == 0 {
            0
        } else {
            let before = (k - 1) as nat;
            self.tear_downs(before) + if self.after_drops(before) is Some && self.after_drops(
                k,
            ) is None {
                1nat
            } else {
                0nat
            }
        }
    }
}

/// Storage with a fixed number of items.
pub struct StaticPlugTail<H, T, const N: usize> {
    hdr: H,
    tail: [Option<T>; N],
}

/// The size and the alignment of a block of memory.
#[derive(Copy, Clone, Debug, PartialEq, Eq, Structural)]
pub struct Layout {
    pub size: usize,
    pub align: usize,
}

/// The least multiple of `align` that is not below `n`.
pub open spec fn round_up(n: nat, align: nat) -> nat {
    ((n + align - 1) / align as int * align) as nat
}

/// The size of a block that holds a value of type `A`, and then `n` values of
/// type `B`.
pub open spec fn extended_size<A, B>(n: nat) -> nat {
    round_up(size_of::<A>(), align_of::<B>()) + n * size_of::<B>()
}

/// The alignment of a block that holds a value of type `A` and values of type `B`.
pub open spec fn extended_align<A, B>() -> nat {
    if align_of::<A>() >= align_of::<B>() {
        align_of::<A>()
    } else {
        align_of::<B>()
    }
}

/// `n` items, all of them absent.
fn vacant<T>(n: usize) -> (r: Vec<Option<T>>)
    ensures
        r@.len() == n,
        forall|i: int| 0 <= i < n ==> #[trigger] r@[i] is None,
{
    let mut tail: Vec<Option<T>> = Vec::new();
    let mut i: usize = 0;
    while i < n
        invariant
            i <= n,
            tail@.len() == i,
            forall|j: int| 0 <= j < i ==> #[trigger] tail@[j] is None,
        decreases n - i,
    {
        tail.push(None);
        i += 1;
    }
    tail
}

/// Nothing, whatever the index.
fn nothing<T>(i: usize) -> (r: Option<T>)
    ensures
        r is None,
{
    None
}

/// Calls `core::array::from_fn` with a function that returns nothing: an array all of
/// whose items are absent.
#[verifier::external_body]
pub(crate) fn vacant_array<T, const N: usize>() -> (r: [Option<T>; N])
    ensures
        forall|i: int| 0 <= i < N ==> #[trigger] r@[i] is None,
{
    core::array::from_fn(nothing::<T>)
}

impl<H: BodyDrop<Item = T>, T> View for ArcPlugTail<H, T> {
    type V = ArcView<H, T>;

    open spec fn view(&self) -> ArcView<H, T> {
        ArcView { strong: self.strong(), header: self.header(), body: self.body() }
    }
}

impl<H: BodyDrop<Item = T>, T> ArcPlugTail<H, T> {
    /// The number of handles.
    pub closed spec fn strong(self) -> nat {
        self.pt.strong as nat
    }

    /// There is a handle, and the number of items is known.
    pub closed spec fn wf(self) -> bool {
        &&& self.pt.strong > 0
        &&& self.pt.len == self.tail@.len()
    }

    /// The layout of storage for `n` items. It must not be larger than any block
    /// of memory can be.
    pub fn layout(n: usize) -> (r: Layout)
        requires
            extended_size::<PlugTail<ArcHdr<H>, T>, T>(n as nat) <= isize::MAX + 1
                - extended_align::<PlugTail<ArcHdr<H>, T>, T>(),
        ensures
            r.size == extended_size::<PlugTail<ArcHdr<H>, T>, T>(n as nat),
            r.align == extended_align::<PlugTail<ArcHdr<H>, T>, T>(),
    {
        let size: usize = core::mem::size_of::<PlugTail<ArcHdr<H>, T>>();
        let align: usize = core::mem::align_of::<PlugTail<ArcHdr<H>, T>>();
        let item_size: usize = core::mem::size_of::<T>();
        let item_align: usize = core::mem::align_of::<T>();
        vstd::layout::layout_for_type_is_valid::<PlugTail<ArcHdr<H>, T>>();
        vstd::layout::layout_for_type_is_valid::<T>();
        proof {
            broadcast use vstd::layout::align_nonzero;
            vstd::arithmetic::div_mod::lemma_fundamental_div_mod(
                size + item_align - 1,
                item_align as int,
            );
            vstd::arithmetic::mul::lemma_mul_is_commutative(
                (size + item_align - 1) / item_align as int,
                item_align as int,
            );
            vstd::arithmetic::mul::lemma_mul_nonnegative(n as int, item_size as int);
            vstd::arithmetic::mul::lemma_mul_nonnegative(
                (size + item_align - 1) / item_align as int,
                item_align as int,
            );
        }
        let offset: usize = (size + (item_align - 1)) / item_align * item_align;
        Layout {
            size: offset + n * item_size,
            align: if align >= item_align {
                align
            } else {
                item_align
            },
        }
    }

    /// Storage for `n` items, all of them absent, with one handle.
    pub fn new(hdr: H, n: usize) -> (r: ArcPlugTail<H, T>)
        ensures
            r.wf(),
            r.strong() == 1,
            r.header() == hdr,
            r.body().len() == n,
            forall|i: int| 0 <= i < n ==> #[trigger] r.body()[i] is None,
    {
        ArcPlugTail { pt: ArcHdr { strong: 1, len: n, hdr }, tail: vacant(n) }
    }

    /// The header and the tail, to be changed.
    pub fn storage_mut(&mut self) -> (r: (&mut H, &mut [Option<T>]))
        ensures
            *r.0 == old(self).header(),
            r.1@ == old(self).body(),
            final(self).header() == *final(r.0),
            final(self).body() == final(r.1)@,
            final(self).strong() == old(self).strong(),
            old(self).wf() && final(r.1)@.len() == old(self).body().len() ==> final(self).wf(),
    {
        (&mut self.pt.hdr, self.tail.as_mut_slice())
    }

    /// Adds a handle.
    pub fn clone(&mut self)
        requires
            old(self).wf(),
            old(self).strong() < usize::MAX,
        ensures
            final(self).wf(),
            final(self)@ == old(self)@.after_clones(1),
    {
        self.pt.strong = self.pt.strong + 1;
    }

    /// Gives up a handle. With the last handle, the header and the tail are handed
    /// over, for the header to tear down the tail; else, the storage stays.
    pub fn release(self) -> (r: Result<ArcPlugTail<H, T>, (H, Vec<Option<T>>)>)
        requires
            self.wf(),
        ensures
            match r {
                Ok(rest) => rest.wf() && self@.after_drop() == Some(rest@),
                Err((hdr, tail)) => {
                    &&& self@.after_drop() is None
                    &&& hdr == self.header()
                    &&& tail@ == self.body()
                },
            },
    {
        let ArcPlugTail { pt, tail } = self;
        let ArcHdr { strong, len, hdr } = pt;
        if strong > 1 {
            Ok(ArcPlugTail { pt: ArcHdr { strong: strong - 1, len, hdr }, tail })
        } else {
            Err((hdr, tail))
        }
    }

    /// Drops a handle. With the last handle, the header tears down the tail, and what
    /// is left of the storage is handed back to go; else, the storage stays.
    pub fn drop(self) -> (r: Result<ArcPlugTail<H, T>, (H, Vec<Option<T>>)>)
        requires
            self.wf(),
        ensures
            match r {
                Ok(rest) => rest.wf() && self@.after_drop() == Some(rest@),
                Err((hdr, tail)) => {
                    &&& self@.after_drop() is None
                    &&& hdr == self.header()
                    &&& hdr.torn_down(self.body(), tail@)
                },
            },
    {
        match self.release() {
            Ok(rest) => Ok(rest),
            Err((hdr, mut tail)) => {
                hdr.body_drop(tail.as_mut_slice());
                Err((hdr, tail))
            },
        }
    }
}

impl<H: BodyDrop<Item = T>, T> Pluggable for ArcPlugTail<H, T> {
    type Header = H;

    type Item = T;

    closed spec fn header(&self) -> H {
        self.pt.hdr
    }

    closed spec fn body(&self) -> Seq<Option<T>> {
        self.tail@
    }

    fn storage(&self) -> (r: PlugDat<'_, H, T>) {
        PlugDat { hdr: &self.pt.hdr, t: self.tail.as_slice() }
    }
}

impl<H, T, const N: usize> StaticPlugTail<H, T, N> {
    /// The header.
    pub closed spec fn hdr(self) -> H {
        self.hdr
    }

    /// The tail.
    pub closed spec fn tail(self) -> Seq<Option<T>> {
        self.tail@
    }

    /// Storage for `N` items, all of them absent.
    pub fn new(hdr: H) -> (r: StaticPlugTail<H, T, N>)
        ensures
            r.hdr() == hdr,
            r.tail().len() == N,
            forall|i: int| 0 <= i < N ==> #[trigger] r.tail()[i] is None,
    {
        StaticPlugTail { hdr, tail: vacant_array::<T, N>() }
    }

    /// The header and the tail, to be changed.
    pub fn storage_mut(&mut self) -> (r: (&mut H, &mut [Option<T>]))
        ensures
            *r.0 == old(self).hdr(),
            r.1@ == old(self).tail(),
            final(self).hdr() == *final(r.0),
            final(self).tail() == final(r.1)@,
    {
        (&mut self.hdr, &mut self.tail)
    }
}

impl<H: BodyDrop<Item = T>, T, const N: usize> Pluggable for StaticPlugTail<H, T, N> {
    type Header = H;

    type Item = T;

    open spec fn header(&self) -> H {
        self.hdr()
    }

    open spec fn body(&self) -> Seq<Option<T>> {
        self.tail()
    }

    fn storage(&self) -> (r: PlugDat<'_, H, T>) {
        PlugDat { hdr: &self.hdr, t: self.tail.as_slice() }
    }
}

// ---------------------------------------------------------------------------
// Laws
// ---------------------------------------------------------------------------

/// The tail is torn down once, with the last handle: of storage with one handle and
/// `k` more, the first `k` drops leave the header and the tail as they are, and the
/// drop after these leaves nothing.
pub proof fn tail_goes_with_the_last_handle<H, T>(storage: ArcView<H, T>, k: nat)
    requires
        storage.strong == 1,
    ensures
        forall|j: nat|
            j <= k ==> #[trigger] storage.after_clones(k).after_drops(j) == Some(
                ArcView { strong: (k + 1 - j) as nat, ..storage },
            ) && storage.after_clones(k).tear_downs(j) == 0,
        storage.after_clones(k).after_drops(k + 1) is None,
        storage.after_clones(k).tear_downs(k + 1) == 1,
{
    let shared = storage.after_clones(k);
    assert forall|j: nat| j <= k implies #[trigger] shared.after_drops(j) == Some(
        ArcView { strong: (k + 1 - j) as nat, ..storage },
    ) && shared.tear_downs(j) == 0 by {
        lemma_drops(storage, k, j);
    }
    lemma_drops(storage, k, k);
}

proof fn lemma_drops<H, T>(storage: ArcView<H, T>, k: nat, j: nat)
    requires
        storage.strong == 1,
        j <= k,
    ensures
        storage.after_clones(k).after_drops(j) == Some(
            ArcView { strong: (k + 1 - j) as nat, ..storage },
        ),
        storage.after_clones(k).tear_downs(j) == 0,
    decreases j,
{
    if j > 0 {
        lemma_drops(storage, k, (j - 1) as nat);
    }
}

/// A block for a header and `n` items is as large as one for the header alone and the
/// items, with no gap that grows with their number, and is aligned like it, enough for
/// the items.
pub proof fn items_leave_no_growing_gap<A, B>(n: nat)
    ensures
        extended_size::<A, B>(n) == extended_size::<A, B>(0) + n * size_of::<B>(),
        extended_align::<A, B>() >= align_of::<A>(),
        extended_align::<A, B>() >= align_of::<B>(),
{
}

/// Where items may follow a header without a gap, because the header is aligned for
/// them, a block without items is just that of the header.
pub proof fn blocks_without_items_are_headers<A, B>()
    requires
        align_of::<A>() >= align_of::<B>(),
    ensures
        extended_size::<A, B>(0) == size_of::<A>(),
        extended_align::<A, B>() == align_of::<A>(),
{
    broadcast use {vstd::layout::align_nonzero, vstd::layout::align_properties};

    let a = align_of::<A>();
    let b = align_of::<B>();
    let size = size_of::<A>();
    assert(a > 0 && b > 0);
    lemma_pow2_divides(a, b);
    vstd::arithmetic::div_mod::lemma_fundamental_div_mod(a as int, b as int);
    vstd::arithmetic::div_mod::lemma_fundamental_div_mod(size as int, a as int);
    let times = size as int / a as int * (a as int / b as int);
    assert(size == b * times) by (nonlinear_arith)
        requires
            size == a * (size as int / a as int) + 0,
            a == b * (a as int / b as int) + 0,
            times == size as int / a as int * (a as int / b as int),
    ;
    assert((size + b - 1) / b as int == times) by {
        vstd::arithmetic::div_mod::lemma_fundamental_div_mod_converse(
            size + b - 1,
            b as int,
            times,
            b - 1,
        );
    }
    assert(times * b == b * times) by (nonlinear_arith);
}

/// Of two powers of two, the larger is a multiple of the smaller.
proof fn lemma_pow2_divides(a: nat, b: nat)
    requires
        is_pow2(a as int),
        is_pow2(b as int),
        a >= b > 0,
    ensures
        a as int % b as int == 0,
{
    is_pow2_equiv(a as int);
    is_pow2_equiv(b as int);
    let i = choose|i: nat| vstd::arithmetic::power::pow(2, i) == a as int;
    let j = choose|j: nat| vstd::arithmetic::power::pow(2, j) == b as int;
    lemma_pow2(i);
    lemma_pow2(j);
    if i < j {
        lemma_pow2_strictly_increases(i, j);
    }
    let rest = (i - j) as nat;
    lemma_pow2_adds(j, rest);
    assert(a == pow2(rest) * b) by (nonlinear_arith)
        requires
            a == pow2(j) * pow2(rest),
            b == pow2(j),
    ;
    vstd::arithmetic::div_mod::lemma_mod_multiples_basic(pow2(rest) as int, b as int);
}

/// Rounding up gives the least multiple that is not below.
pub proof fn rounding_up_gives_the_least_multiple(n: nat, align: nat)
    requires
        align > 0,
    ensures
        round_up(n, align) as int % align as int == 0,
        n <= round_up(n, align) < n + align,
{
    let q = (n + align - 1) / align as int;
    vstd::arithmetic::div_mod::lemma_fundamental_div_mod(n + align - 1, align as int);
    vstd::arithmetic::div_mod::lemma_mod_bound(n + align - 1, align as int);
    assert(q * align == align * q) by (nonlinear_arith);
    assert(q >= 0) by {
        vstd::arithmetic::div_mod::lemma_div_pos_is_pos(n + align - 1, align as int);
    }
    assert(q * align >= 0) by (nonlinear_arith)
        requires
            q >= 0,
            align > 0,
    ;
    vstd::arithmetic::div_mod::lemma_mod_multiples_basic(q, align as int);
}

/// A block is aligned as the more demanding of its two parts, and the items start at the
/// first place behind the header that is aligned for them.
pub proof fn blocks_hold_both_parts<A, B>(n: nat)
    ensures
        extended_align::<A, B>() == align_of::<A>() || extended_align::<A, B>() == align_of::<B>(),
        extended_align::<A, B>() >= align_of::<A>(),
        extended_align::<A, B>() >= align_of::<B>(),
        ({
            let start = extended_size::<A, B>(n) - n * size_of::<B>();
            &&& size_of::<A>() <= start < size_of::<A>() + align_of::<B>()
            &&& start % align_of::<B>() as int == 0
        }),
{
    broadcast use vstd::layout::align_nonzero;

    rounding_up_gives_the_least_multiple(size_of::<A>(), align_of::<B>());
}

/// Each handle counts for one, whatever their number: making some adds as many, and
/// dropping one takes one away, until it was the last. Neither touches the header or the
/// tail.
pub proof fn handles_are_counted<H, T>(storage: ArcView<H, T>, k: nat)
    requires
        storage.strong > 0,
    ensures
        ({
            let more = storage.after_clones(k);
            &&& more.strong == storage.strong + k
            &&& more.header == storage.header
            &&& more.body == storage.body
        }),
        storage.after_drop() is None <==> storage.strong == 1,
        storage.after_drop() matches Some(rest) ==> rest.strong == storage.strong - 1 && rest.header
            == storage.header && rest.body == storage.body,
{
}

} // verus!
