//! The queue of a channel.
//!
//! The messages of a channel sit in an array of elements. The queue holds the
//! indices of the elements that have been sent, in the order in which they were
//! sent; the other elements are free, or reserved by a sender that has not sent
//! its message yet, or by a receiver that still reads it.
use super::error::{TryRecvError, TrySendError};
use crate::tricky_pipe::index::IndexAllocWord;
use vstd::prelude::*;

verus! {

/// The number of elements that a channel can have.
pub const MAX_CAPACITY: usize = 64;

/// Bit of a position word: the channel has been closed by the other side.
///
/// The flags are the lowest bits of the word, so that they are not clobbered if
/// incrementing the position wraps around.
pub const CLOSED: u16 = 1;

/// Bit of a position word: the channel has been closed with an error.
pub const HAS_ERROR: u16 = 2;

/// Both flags of a position word.
pub const CLOSED_ERROR: u16 = 3;

/// The number of flags in a position word.
pub const POS_SHIFT: u16 = 2;

/// The value by which a position word is incremented.
pub const POS_ONE: u16 = 4;

/// The bits of a slot that hold an index, and the bits of a position that select
/// a slot.
pub const MASK: u16 = 63;

/// The number of bits of [`MASK`].
pub const SEQ_SHIFT: u16 = 6;

/// The value by which the sequence number in a slot is incremented.
pub const SEQ_ONE: u16 = 64;

/// Bit of the state: the receiver has been claimed.
pub const RX_CLAIMED: usize = 1;

/// The value of one sender in the state.
pub const TX_ONE: usize = 2;

/// The number of bits of the state below the count of senders.
pub const TX_SHIFT: usize = 1;

// ---------------------------------------------------------------------------
// Words
// ---------------------------------------------------------------------------

/// The position in a position word.
pub open spec fn word_pos(word: u16) -> int {
    word as int / 4
}

/// Whether a position word is marked closed.
pub open spec fn word_closed(word: u16) -> bool {
    word % 2 == 1
}

/// Whether a position word is marked closed with an error.
pub open spec fn word_closed_error(word: u16) -> bool {
    word % 4 == 3
}

/// The sequence number in a slot.
pub open spec fn slot_seq(slot: u16) -> int {
    slot as int / 64
}

/// The index in a slot.
pub open spec fn slot_index(slot: u16) -> u8 {
    (slot % 64) as u8
}

/// The slot with sequence number `seq`, taken modulo 1024, and index `idx`.
pub open spec fn slot_of(seq: int, idx: int) -> u16 {
    (seq % 1024 * 64 + idx) as u16
}

/// The word one position further on, with the same flags.
pub open spec fn word_next(word: u16) -> u16 {
    if word + 4 <= u16::MAX {
        (word + 4) as u16
    } else {
        (word + 4 - 65536) as u16
    }
}

proof fn lemma_word(word: u16)
    ensures
        (word >> POS_SHIFT) == word_pos(word),
        (word & CLOSED != 0) == word_closed(word),
        (word & CLOSED_ERROR == CLOSED_ERROR) == word_closed_error(word),
        word_pos(word | CLOSED) == word_pos(word),
        word_closed(word | CLOSED),
        word_closed_error(word | CLOSED) == (word_closed_error(word) || word % 4 == 2),
        (word | CLOSED) % 4 == 3 ==> word % 4 == 2 || word % 4 == 3,
        word_pos(word | CLOSED_ERROR) == word_pos(word),
        word_closed(word | CLOSED_ERROR),
        word_closed_error(word | CLOSED_ERROR),
        (word & HAS_ERROR != 0) == (word % 4 >= 2),
{
    assert(word >> 2u16 == word / 4u16 && (word & 1 != 0) == (word % 2 == 1) && (word & 3 == 3) == (
    word % 4 == 3) && (word | 1) / 4 == word / 4 && (word | 1) % 2 == 1 && ((word | 1) % 4 == 3) == (
    word % 4 == 3 || word % 4 == 2) && (word | 3) / 4 == word / 4 && (word | 3) % 2 == 1 && (word
        | 3) % 4 == 3 && (word & 2 != 0) == (word % 4 >= 2)) by (bit_vector);
}

proof fn lemma_slot(slot: u16)
    ensures
        (slot >> SEQ_SHIFT) == slot_seq(slot),
        slot & MASK == slot % 64,
{
    assert(slot >> 6u16 == slot / 64u16 && slot & 63 == slot % 64) by (bit_vector);
}

proof fn lemma_make_slot(pos: u16, idx: u16)
    requires
        idx < 64,
    ensures
        (pos << SEQ_SHIFT) == pos as int % 1024 * 64,
        (idx | (pos << SEQ_SHIFT)) == pos as int % 1024 * 64 + idx,
{
    assert(pos << 6u16 == (pos % 1024u16) * 64u16 && idx | (pos << 6u16) == (pos % 1024u16) * 64u16
        + idx && (pos % 1024u16) * 64u16 <= 65472u16) by (bit_vector)
        requires
            idx < 64,
    ;
}

proof fn lemma_low_byte(x: u16)
    ensures
        x as u8 == x % 256,
{
    assert(x as u8 == x % 256) by (bit_vector);
}

// ---------------------------------------------------------------------------
// Decisions on the words
// ---------------------------------------------------------------------------

/// How far `seq` is ahead of `pos`, as far as the lowest eight bits tell: numbers
/// from 128 on stand for the negative ones.
pub open spec fn lead(seq: int, pos: int) -> int {
    (seq - pos) % 256
}

/// What is to be done to receive a message, as the position word and the slot
/// that it selects tell.
pub enum DequeueStep {
    /// There is no message.
    Empty,
    /// There is no message, and there will be none: the channel is closed.
    Disconnected,
    /// There is no message, and there will be none: the channel is closed with an
    /// error.
    Error,
    /// There is a message: the words to be stored, and its index.
    Claim { head: u16, slot: u16, idx: u8 },
    /// The position word is out of date.
    Retry,
}

/// What is to be done to send a message, as the position word and the slot that
/// it selects tell.
pub enum CommitStep {
    /// The slot is still in use.
    Full,
    /// The slot is free: the words to be stored.
    Claim { tail: u16, slot: u16 },
    /// The position word is out of date.
    Retry,
}

/// The number of the slot that a position word selects.
pub fn slot_number(word: u16) -> (r: usize)
    ensures
        r == word_pos(word) % 64,
{
    proof {
        lemma_word(word);
        lemma_slot(word >> POS_SHIFT);
    }
    ((word >> POS_SHIFT) & MASK) as usize
}

fn wrapping_lead(seq: u16, pos: u16) -> (r: u8)
    ensures
        r == lead(seq as int, pos as int),
{
    proof {
        lemma_low_byte(seq);
        lemma_low_byte(pos);
    }
    #[verifier::truncate]
    let seq: u8 = seq as u8;
    #[verifier::truncate]
    let pos: u8 = pos as u8;
    seq.wrapping_sub(pos)
}

/// What is to be done to receive a message, given the position word and the slot
/// that it selects.
pub open spec fn spec_dequeue_step(head: u16, val: u16) -> DequeueStep {
    let pos = word_pos(head);
    let dif = lead(slot_seq(val), pos + 1);
    if dif == 0 {
        DequeueStep::Claim {
            head: word_next(head),
            slot: slot_of(pos + MAX_CAPACITY, 0),
            idx: slot_index(val),
        }
    } else if dif >= 128 {
        if word_closed_error(head) {
            DequeueStep::Error
        } else if word_closed(head) {
            DequeueStep::Disconnected
        } else {
            DequeueStep::Empty
        }
    } else {
        DequeueStep::Retry
    }
}

/// What is to be done to send the message with index `idx`, given the position
/// word and the slot that it selects.
pub open spec fn spec_commit_step(tail: u16, val: u16, idx: u8) -> CommitStep {
    let pos = word_pos(tail);
    let dif = lead(slot_seq(val), pos);
    if dif == 0 {
        CommitStep::Claim { tail: word_next(tail), slot: slot_of(pos + 1, idx as int) }
    } else if dif >= 128 {
        CommitStep::Full
    } else {
        CommitStep::Retry
    }
}

/// Decides how to receive a message.
pub fn dequeue_step(head: u16, val: u16) -> (r: DequeueStep)
    ensures
        r == spec_dequeue_step(head, val),
{
    proof {
        lemma_word(head);
        lemma_slot(val);
    }
    // Shift to the right to extract the actual position, and discard the flags.
    let pos: u16 = head >> POS_SHIFT;
    let seq: u16 = val >> SEQ_SHIFT;
    let dif: u8 = wrapping_lead(seq, pos + 1);
    if dif == 0 {
        let turn: u16 = pos + MAX_CAPACITY as u16;
        proof {
            lemma_make_slot(turn, 0);
        }
        DequeueStep::Claim {
            head: head.wrapping_add(POS_ONE),
            slot: turn << SEQ_SHIFT,
            idx: (val & MASK) as u8,
        }
    } else if dif >= 128 {
        if head & CLOSED_ERROR == CLOSED_ERROR {
            DequeueStep::Error
        } else if head & CLOSED != 0 {
            DequeueStep::Disconnected
        } else {
            DequeueStep::Empty
        }
    } else {
        DequeueStep::Retry
    }
}

/// Decides how to send the message with index `idx`.
pub fn commit_step(tail: u16, val: u16, idx: u8) -> (r: CommitStep)
    requires
        idx <= MASK,
    ensures
        r == spec_commit_step(tail, val, idx),
{
    proof {
        lemma_word(tail);
        lemma_slot(val);
    }
    // Shift to the right to extract the actual position, and discard the flags.
    let pos: u16 = tail >> POS_SHIFT;
    let seq: u16 = val >> SEQ_SHIFT;
    let dif: u8 = wrapping_lead(seq, pos);
    if dif == 0 {
        proof {
            lemma_make_slot((pos + 1) as u16, idx as u16);
        }
        CommitStep::Claim {
            tail: tail.wrapping_add(POS_ONE),
            slot: idx as u16 | ((pos + 1) << SEQ_SHIFT),
        }
    } else if dif >= 128 {
        CommitStep::Full
    } else {
        CommitStep::Retry
    }
}

// ---------------------------------------------------------------------------
// The ring of slots
// ---------------------------------------------------------------------------

/// The slot for the `n`-th message ever sent.
#[verifier::opaque]
pub open spec fn at(n: int) -> int {
    n % 64
}

pub(super) proof fn lemma_at(n: int, m: int)
    ensures
        0 <= at(n) < 64,
        0 <= at(m) < 64,
        at(n + 64) == at(n),
        0 < m - n < 64 ==> at(n) != at(m),
{
    reveal(at);
}

pub(super) proof fn lemma_at_pos(pos: int, n: int)
    requires
        pos == n % 16384,
    ensures
        pos % 64 == at(n),
{
    reveal(at);
    vstd::arithmetic::div_mod::lemma_mod_mod(n, 64, 256);
}

/// The slot of the `n`-th message, which has index `idx` and can be received.
#[verifier::opaque]
pub open spec fn sent_slot(n: int, idx: u8) -> u16 {
    slot_of(n + 1, idx as int)
}

/// Whether a slot can be used to send the `n`-th message.
#[verifier::opaque]
pub open spec fn free_slot(slot: u16, n: int) -> bool {
    slot_seq(slot) == n % 1024
}

pub(super) proof fn lemma_sent_slot(pos: int, n: int, idx: u8)
    requires
        pos == n % 16384,
        0 <= n,
        idx < 64,
    ensures
        lead(slot_seq(sent_slot(n, idx)), pos + 1) == 0,
        slot_index(sent_slot(n, idx)) == idx,
        slot_of(pos + 1, idx as int) == sent_slot(n, idx),
{
    reveal(sent_slot);
    assert((pos + 1) % 1024 == (n + 1) % 1024);
}

pub(super) proof fn lemma_free_slot(slot: u16, pos: int, n: int)
    requires
        pos == n % 16384,
        0 <= n,
    ensures
        free_slot(slot, n) ==> lead(slot_seq(slot), pos) == 0,
        free_slot(slot, n) ==> lead(slot_seq(slot), pos + 1) == 255,
        free_slot(slot_of(pos + 64, 0), n + 64),
{
    reveal(free_slot);
    assert((pos + 64) % 1024 == (n + 64) % 1024);
}

/// The ring of slots holds the indices `queued`, of which the first was the
/// `taken`-th to be sent. The slot of a message that can be received has the
/// sequence number after its position; a slot that can be used to send has the
/// sequence number of the position that it is next used for.
#[verifier::opaque]
spec fn ring(slots: Seq<u16>, head: u16, tail: u16, taken: nat, queued: Seq<u8>) -> bool {
    &&& slots.len() == 64
    &&& queued.len() <= 64
    &&& word_pos(head) == taken % 16384
    &&& word_pos(tail) == (taken + queued.len()) % 16384
    &&& forall|n: int|
        taken <= n < taken + queued.len() ==> slots[#[trigger] at(n)] == sent_slot(
            n,
            queued[n - taken],
        )
    &&& forall|n: int|
        taken + queued.len() <= n < taken + 64 ==> free_slot(slots[#[trigger] at(n)], n)
    &&& forall|k: int| 0 <= k < queued.len() ==> #[trigger] queued[k] < 64
}

proof fn lemma_ring_empty(slots: Seq<u16>)
    requires
        slots.len() == 64,
        forall|i: int| 0 <= i < 64 ==> #[trigger] slots[i] == i * 64,
    ensures
        ring(slots, 0, 0, 0, Seq::empty()),
{
    reveal(ring);
    assert forall|n: int| 0 <= n < 64 implies free_slot(slots[#[trigger] at(n)], n) by {
        reveal(free_slot);
        lemma_at_pos(n, n);
    }
}

/// What a ring tells someone who is to receive.
proof fn lemma_ring_head(slots: Seq<u16>, head: u16, tail: u16, taken: nat, queued: Seq<u8>)
    requires
        ring(slots, head, tail, taken, queued),
    ensures
        slots.len() == 64,
        queued.len() > 0 ==> lead(slot_seq(slots[word_pos(head) % 64]), word_pos(head) + 1) == 0
            && slot_index(slots[word_pos(head) % 64]) == queued[0],
        queued.len() == 0 ==> lead(slot_seq(slots[word_pos(head) % 64]), word_pos(head) + 1)
            == 255,
{
    reveal(ring);
    let t = taken as int;
    lemma_at_pos(word_pos(head), t);
    let slot = slots[at(t)];
    if queued.len() > 0 {
        assert(queued[0] < 64);
        lemma_sent_slot(word_pos(head), t, queued[0]);
    } else {
        lemma_free_slot(slot, word_pos(head), t);
    }
}

/// What a ring tells someone who is to send.
proof fn lemma_ring_tail(slots: Seq<u16>, head: u16, tail: u16, taken: nat, queued: Seq<u8>)
    requires
        ring(slots, head, tail, taken, queued),
        queued.len() < 64,
    ensures
        slots.len() == 64,
        lead(slot_seq(slots[word_pos(tail) % 64]), word_pos(tail)) == 0,
{
    reveal(ring);
    let n = taken + queued.len() as int;
    lemma_at_pos(word_pos(tail), n);
    lemma_free_slot(slots[at(n)], word_pos(tail), n);
}

pub(super) proof fn lemma_word_next(word: u16, n: nat)
    requires
        word_pos(word) == n % 16384,
    ensures
        word_pos(word_next(word)) == (n + 1) % 16384,
        word_next(word) % 4 == word % 4,
{
}

/// The ring after a message was received.
proof fn lemma_ring_pop(slots: Seq<u16>, head: u16, tail: u16, taken: nat, queued: Seq<u8>)
    requires
        ring(slots, head, tail, taken, queued),
        queued.len() > 0,
    ensures
        ring(
            slots.update(word_pos(head) % 64, slot_of(word_pos(head) + 64, 0)),
            word_next(head),
            tail,
            taken + 1,
            queued.drop_first(),
        ),
{
    reveal(ring);
    let t = taken as int;
    let slot = slot_of(word_pos(head) + 64, 0);
    let after = slots.update(at(t), slot);
    let rest = queued.drop_first();
    lemma_word_next(head, taken);
    lemma_at_pos(word_pos(head), t);
    lemma_free_slot(slot, word_pos(head), t);
    assert forall|n: int| t + 1 <= n < t + 1 + rest.len() implies after[#[trigger] at(n)]
        == sent_slot(n, rest[n - (t + 1)]) by {
        lemma_at(t, n);
        assert(slots[at(n)] == sent_slot(n, queued[n - t]));
        assert(rest[n - (t + 1)] == queued[n - t]);
    }
    assert forall|n: int| t + 1 + rest.len() <= n < t + 1 + 64 implies free_slot(
        after[#[trigger] at(n)],
        n,
    ) by {
        lemma_at(t, n);
        if n < t + 64 {
            assert(free_slot(slots[at(n)], n));
        }
    }
    assert(taken + 1 + rest.len() == taken + queued.len());
}

/// The ring after a message was sent.
proof fn lemma_ring_push(
    slots: Seq<u16>,
    head: u16,
    tail: u16,
    taken: nat,
    queued: Seq<u8>,
    idx: u8,
)
    requires
        ring(slots, head, tail, taken, queued),
        queued.len() < 64,
        idx < 64,
    ensures
        ring(
            slots.update(word_pos(tail) % 64, slot_of(word_pos(tail) + 1, idx as int)),
            head,
            word_next(tail),
            taken,
            queued.push(idx),
        ),
{
    reveal(ring);
    let end = taken + queued.len() as int;
    let slot = slot_of(word_pos(tail) + 1, idx as int);
    let after = slots.update(at(end), slot);
    let more = queued.push(idx);
    lemma_word_next(tail, taken + queued.len());
    lemma_at_pos(word_pos(tail), end);
    lemma_sent_slot(word_pos(tail), end, idx);
    assert forall|n: int| taken <= n < taken + more.len() implies after[#[trigger] at(n)]
        == sent_slot(n, more[n - taken]) by {
        lemma_at(n, end);
        if n < end {
            assert(slots[at(n)] == sent_slot(n, queued[n - taken]));
        }
    }
    assert forall|n: int| taken + more.len() <= n < taken + 64 implies free_slot(
        after[#[trigger] at(n)],
        n,
    ) by {
        lemma_at(end, n);
        assert(free_slot(slots[at(n)], n));
    }
}

/// The ring after the flags of a position word were changed.
proof fn lemma_ring_flags(
    slots: Seq<u16>,
    head: u16,
    tail: u16,
    taken: nat,
    queued: Seq<u8>,
    new_head: u16,
    new_tail: u16,
)
    requires
        ring(slots, head, tail, taken, queued),
        word_pos(new_head) == word_pos(head),
        word_pos(new_tail) == word_pos(tail),
    ensures
        ring(slots, new_head, new_tail, taken, queued),
{
    reveal(ring);
}

/// The number of messages, as the position words tell.
proof fn lemma_ring_len(slots: Seq<u16>, head: u16, tail: u16, taken: nat, queued: Seq<u8>)
    requires
        ring(slots, head, tail, taken, queued),
    ensures
        queued.len() == (word_pos(tail) - word_pos(head)) % 16384,
        queued.len() <= 64,
{
    reveal(ring);
}

// ---------------------------------------------------------------------------
// The queue
// ---------------------------------------------------------------------------

/// The queue of a channel, and the state of its two ends.
pub struct Core<E> {
    /// The position at which messages are received, with the flags by which the
    /// senders tell the receiver that the channel is closed.
    dequeue_pos: u16,
    /// The position at which messages are sent, with the flags by which the
    /// receiver tells the senders that the channel is closed.
    enqueue_pos: u16,
    /// The indices that are in use.
    indices: IndexAllocWord,
    /// The indices that were sent.
    queue: [u16; 64],
    /// Whether the receiver has been claimed, and the number of senders.
    state: usize,
    /// The number of elements of the channel.
    capacity: u8,
    /// The error that the channel was closed with.
    error: Option<E>,
    /// The number of messages that were received.
    taken: Ghost<nat>,
    /// The indices that were sent and not received yet.
    queued: Ghost<Seq<u8>>,
}

/// An element of the channel that is not free: a sender that holds it may send
/// it, and whoever holds it may give it back.
#[must_use]
pub struct Reservation {
    /// The index of the element.
    pub idx: u8,
}

/// The contents of a queue.
pub struct CoreView<E> {
    /// The indices that were sent and not received yet, the oldest first.
    pub queued: Seq<u8>,
    /// The indices that are in use: those that were sent, and those that are
    /// reserved.
    pub in_use: Set<u8>,
    /// The number of elements of the channel.
    pub capacity: nat,
    /// Nothing can be sent any more.
    pub send_closed: bool,
    /// Nothing can be received any more once the queue is empty.
    pub recv_closed: bool,
    /// The error that the channel was closed with.
    pub error: Option<E>,
    /// Whether the receiver has been claimed.
    pub rx_claimed: bool,
    /// The number of senders.
    pub tx_count: nat,
}

impl<E> CoreView<E> {
    /// An index that was sent is in use, and was sent once. A channel that was
    /// closed with an error is closed at both ends.
    pub open spec fn valid(self) -> bool {
        &&& self.capacity <= MAX_CAPACITY
        &&& self.queued.no_duplicates()
        &&& forall|i: int| 0 <= i < self.queued.len() ==> self.in_use.contains(#[trigger] self.queued[i])
        &&& forall|i: u8| #[trigger] self.in_use.contains(i) ==> i < self.capacity
        &&& self.error is Some ==> self.send_closed && self.recv_closed
    }

    /// Whether index `idx` is in use, but was not sent.
    pub open spec fn reserved(self, idx: u8) -> bool {
        self.in_use.contains(idx) && !self.queued.contains(idx)
    }

    /// Whether every index is in use.
    pub open spec fn exhausted(self) -> bool {
        forall|i: u8| i < self.capacity ==> #[trigger] self.in_use.contains(i)
    }

    /// The queue with one more index reserved.
    pub open spec fn reserve(self, idx: u8) -> CoreView<E> {
        CoreView { in_use: self.in_use.insert(idx), ..self }
    }

    /// The queue with one less index reserved.
    pub open spec fn release(self, idx: u8) -> CoreView<E> {
        CoreView { in_use: self.in_use.remove(idx), ..self }
    }

    /// The queue after a reserved index was sent.
    pub open spec fn push(self, idx: u8) -> CoreView<E> {
        CoreView { queued: self.queued.push(idx), ..self }
    }

    /// The queue after the oldest index was received.
    pub open spec fn pop(self) -> CoreView<E> {
        CoreView { queued: self.queued.drop_first(), ..self }
    }

    /// The queue after it was closed with an error: the first error stays.
    pub open spec fn close_with_error(self, error: E) -> CoreView<E> {
        if self.error is Some {
            self
        } else {
            CoreView { error: Some(error), send_closed: true, recv_closed: true, ..self }
        }
    }

    /// The queue after a sender is gone: when the last is gone, the channel is
    /// closed to the receiver.
    pub open spec fn drop_tx(self) -> CoreView<E> {
        CoreView {
            tx_count: (self.tx_count - 1) as nat,
            recv_closed: self.recv_closed || self.tx_count == 1,
            ..self
        }
    }
}

/// As many different indices below `n` as there are, `n` of them there are at
/// most; and if there are `n`, every index is among them.
pub proof fn lemma_distinct(s: Seq<u8>, n: nat)
    requires
        s.no_duplicates(),
        n <= 256,
        forall|i: int| 0 <= i < s.len() ==> #[trigger] s[i] < n,
    ensures
        s.len() <= n,
        s.len() == n ==> forall|i: u8| i < n ==> #[trigger] s.contains(i),
{
    let ints = s.map_values(|b: u8| b as int);
    let range = vstd::set_lib::set_int_range(0, n as int);
    vstd::set_lib::lemma_int_range(0, n as int);
    assert(ints.no_duplicates());
    ints.unique_seq_to_set();
    assert(ints.to_set().subset_of(range)) by {
        assert forall|x: int| ints.to_set().contains(x) implies range.contains(x) by {
            let i = ints.index_of(x);
            assert(ints[i] == x);
            assert(s[i] < n);
        }
    }
    vstd::set_lib::lemma_len_subset(ints.to_set(), range);
    if s.len() == n {
        vstd::set_lib::lemma_subset_equality(ints.to_set(), range);
        assert forall|i: u8| i < n implies #[trigger] s.contains(i) by {
            assert(range.contains(i as int));
            assert(ints.to_set().contains(i as int));
            let k = ints.index_of(i as int);
            assert(ints[k] == i as int);
            assert(s[k] == i);
        }
    }
}

/// The indices below `n`.
spec fn below(n: nat) -> Set<u8> {
    Set::new(|i: u8| i < n)
}

proof fn lemma_below(n: nat)
    requires
        n <= 256,
    ensures
        below(n).finite(),
        below(n).len() == n,
    decreases n,
{
    if n == 0 {
        assert(below(0) =~= Set::empty());
    } else {
        lemma_below((n - 1) as nat);
        assert(below(n) =~= below((n - 1) as nat).insert((n - 1) as u8));
    }
}

impl<E> CoreView<E> {
    /// The indices that are in use, but were not sent.
    pub open spec fn reserved_set(self) -> Set<u8> {
        self.in_use.difference(self.queued.to_set())
    }

    /// Every index in use either was sent or is reserved, so there are never
    /// more messages and reservations than elements; and when there are as many,
    /// nothing can be reserved.
    pub proof fn lemma_count(self)
        requires
            self.valid(),
        ensures
            self.reserved_set().finite(),
            self.queued.len() + self.reserved_set().len() <= self.capacity,
            self.exhausted() <==> self.queued.len() + self.reserved_set().len() == self.capacity,
            forall|i: u8| #[trigger] self.reserved_set().contains(i) <==> self.reserved(i),
    {
        let all = below(self.capacity);
        let sent = self.queued.to_set();
        lemma_below(self.capacity);
        assert(self.in_use.subset_of(all));
        vstd::set_lib::lemma_len_subset(self.in_use, all);
        self.queued.unique_seq_to_set();
        assert(sent.subset_of(self.in_use)) by {
            assert forall|i: u8| sent.contains(i) implies self.in_use.contains(i) by {
                let k = self.queued.index_of(i);
                assert(self.queued[k] == i);
            }
        }
        let reserved = self.reserved_set();
        vstd::set_lib::lemma_set_disjoint_lens(reserved, sent);
        assert(reserved + sent =~= self.in_use);
        if self.in_use.len() == self.capacity {
            vstd::set_lib::lemma_subset_equality(self.in_use, all);
            assert forall|i: u8| i < self.capacity implies #[trigger] self.in_use.contains(i) by {
                assert(all.contains(i));
            }
        }
        if self.exhausted() {
            assert(self.in_use =~= all);
        }
    }
}

impl<E> View for Core<E> {
    type V = CoreView<E>;

    closed spec fn view(&self) -> CoreView<E> {
        CoreView {
            queued: self.queued@,
            in_use: self.indices@,
            capacity: self.capacity as nat,
            send_closed: word_closed(self.enqueue_pos),
            recv_closed: word_closed(self.dequeue_pos),
            error: self.error,
            rx_claimed: self.state % 2 == 1,
            tx_count: self.state as nat / 2,
        }
    }
}

impl<E> Core<E> {
    /// The slots hold the indices that were sent, and the flags tell of the
    /// error.
    pub closed spec fn wf(self) -> bool {
        &&& self.indices.wf()
        &&& self.indices.spec_capacity() == self.capacity
        &&& self@.valid()
        &&& ring(self.queue@, self.dequeue_pos, self.enqueue_pos, self.taken@, self.queued@)
        &&& self.error is Some <==> word_closed_error(self.enqueue_pos)
        &&& self.error is Some <==> word_closed_error(self.dequeue_pos)
        &&& self.enqueue_pos % 4 != 2
        &&& self.dequeue_pos % 4 != 2
    }

    /// A queue in order has valid contents.
    pub proof fn lemma_valid(self)
        requires
            self.wf(),
        ensures
            self@.valid(),
    {
    }

    /// An empty queue for a channel of `capacity` elements, with one sender.
    pub fn new(capacity: u8) -> (r: Core<E>)
        requires
            capacity <= MAX_CAPACITY,
        ensures
            r.wf(),
            r@ == (CoreView::<E> {
                queued: Seq::empty(),
                in_use: Set::empty(),
                capacity: capacity as nat,
                send_closed: false,
                recv_closed: false,
                error: None,
                rx_claimed: false,
                tx_count: 1,
            }),
    {
        // The channel itself can create new senders freely, so it counts as one.
        let mut core = Core::without_sender(capacity);
        core.add_tx();
        core
    }

    /// An empty queue for a channel of `capacity` elements, without a sender.
    pub fn without_sender(capacity: u8) -> (r: Core<E>)
        requires
            capacity <= MAX_CAPACITY,
        ensures
            r.wf(),
            r@ == (CoreView::<E> {
                queued: Seq::empty(),
                in_use: Set::empty(),
                capacity: capacity as nat,
                send_closed: false,
                recv_closed: false,
                error: None,
                rx_claimed: false,
                tx_count: 0,
            }),
    {
        let mut queue: [u16; 64] = [0u16; 64];
        let mut i: usize = 0;
        while i != MAX_CAPACITY
            invariant
                i <= MAX_CAPACITY,
                queue@.len() == 64,
                forall|j: int| 0 <= j < i ==> #[trigger] queue@[j] == j * 64,
            decreases MAX_CAPACITY - i,
        {
            queue[i] = (i as u16) * SEQ_ONE;
            i += 1;
        }
        proof {
            lemma_ring_empty(queue@);
        }
        Core {
            dequeue_pos: 0,
            enqueue_pos: 0,
            indices: IndexAllocWord::with_capacity(capacity),
            queue,
            state: 0,
            capacity,
            error: None,
            taken: Ghost(0),
            queued: Ghost(Seq::empty()),
        }
    }

    /// Gives back a reserved index.
    pub fn uncommit(&mut self, res: Reservation)
        requires
            old(self).wf(),
            old(self)@.reserved(res.idx),
        ensures
            final(self).wf(),
            final(self)@ == old(self)@.release(res.idx),
    {
        self.indices.free(res.idx);
    }

    /// Claims the receiver, and returns whether it had not been claimed before.
    pub fn try_claim_rx(&mut self) -> (r: bool)
        requires
            old(self).wf(),
        ensures
            final(self).wf(),
            r == !old(self)@.rx_claimed,
            final(self)@ == (CoreView { rx_claimed: true, ..old(self)@ }),
    {
        let claimed = self.state % 2 != RX_CLAIMED;
        if claimed {
            self.state = self.state + RX_CLAIMED;
        }
        claimed
    }

    /// Closes the channel from the receiver.
    pub fn close_rx(&mut self)
        requires
            old(self).wf(),
        ensures
            final(self).wf(),
            final(self)@ == (CoreView { send_closed: true, ..old(self)@ }),
    {
        proof {
            lemma_word(self.enqueue_pos);
            lemma_ring_flags(
                self.queue@,
                self.dequeue_pos,
                self.enqueue_pos,
                self.taken@,
                self.queued@,
                self.dequeue_pos,
                self.enqueue_pos | CLOSED,
            );
        }
        self.enqueue_pos = self.enqueue_pos | CLOSED;
    }

    /// Closes the channel with an error, from either end. If it was already
    /// closed with an error, nothing is done, and `false` is returned.
    pub fn close_with_error(&mut self, error: E) -> (r: bool)
        requires
            old(self).wf(),
        ensures
            final(self).wf(),
            r == old(self)@.error is None,
            final(self)@ == old(self)@.close_with_error(error),
    {
        proof {
            lemma_word(self.enqueue_pos);
            lemma_word(self.dequeue_pos);
            lemma_ring_flags(
                self.queue@,
                self.dequeue_pos,
                self.enqueue_pos,
                self.taken@,
                self.queued@,
                self.dequeue_pos | CLOSED_ERROR,
                self.enqueue_pos | CLOSED_ERROR,
            );
        }
        if self.error.is_some() {
            return false;
        }
        self.error = Some(error);
        self.enqueue_pos = self.enqueue_pos | CLOSED_ERROR;
        self.dequeue_pos = self.dequeue_pos | CLOSED_ERROR;
        true
    }

    /// Adds a sender.
    pub fn add_tx(&mut self)
        requires
            old(self).wf(),
            old(self)@.tx_count < usize::MAX / 2,
        ensures
            final(self).wf(),
            final(self)@ == (CoreView {
                tx_count: old(self)@.tx_count + 1,
                ..old(self)@
            }),
    {
        self.state = self.state + TX_ONE;
    }

    /// Drops a sender, and returns whether it was the last. Then the channel is
    /// closed to the receiver.
    pub fn drop_tx(&mut self) -> (r: bool)
        requires
            old(self).wf(),
            old(self)@.tx_count > 0,
        ensures
            final(self).wf(),
            r == (old(self)@.tx_count == 1),
            final(self)@ == old(self)@.drop_tx(),
    {
        let refs: usize = self.state / TX_ONE;
        self.state = self.state - TX_ONE;
        if refs == 1 {
            proof {
                lemma_word(self.dequeue_pos);
                lemma_ring_flags(
                    self.queue@,
                    self.dequeue_pos,
                    self.enqueue_pos,
                    self.taken@,
                    self.queued@,
                    self.dequeue_pos | CLOSED,
                    self.enqueue_pos,
                );
            }
            self.dequeue_pos = self.dequeue_pos | CLOSED;
            true
        } else {
            false
        }
    }

    /// Whether there is no message in the channel.
    #[must_use]
    pub fn is_empty(&self) -> (r: bool)
        requires
            self.wf(),
        ensures
            r == (self@.queued.len() == 0),
    {
        self.len() == 0
    }

    /// Whether every element of the channel holds a message.
    #[must_use]
    pub fn is_full(&self) -> (r: bool)
        requires
            self.wf(),
        ensures
            r == (self@.queued.len() == self@.capacity),
    {
        self.len() == self.capacity as usize
    }

    /// The number of messages in the channel.
    #[must_use]
    pub fn len(&self) -> (r: usize)
        requires
            self.wf(),
        ensures
            r == self@.queued.len(),
    {
        proof {
            lemma_word(self.dequeue_pos);
            lemma_word(self.enqueue_pos);
            lemma_ring_len(
                self.queue@,
                self.dequeue_pos,
                self.enqueue_pos,
                self.taken@,
                self.queued@,
            );
        }
        let head: u16 = self.dequeue_pos >> POS_SHIFT;
        let tail: u16 = self.enqueue_pos >> POS_SHIFT;
        if head <= tail {
            (tail - head) as usize
        } else {
            // the position of the senders has wrapped around.
            (16384 - head + tail) as usize
        }
    }

    /// The number of elements of the channel.
    #[must_use]
    pub fn capacity(&self) -> (r: usize)
        ensures
            r == self@.capacity,
    {
        self.capacity as usize
    }

    /// The number of elements that do not hold a message.
    #[must_use]
    pub fn remaining(&self) -> (r: usize)
        requires
            self.wf(),
        ensures
            r == self@.capacity - self@.queued.len(),
    {
        proof {
            lemma_distinct(self@.queued, self@.capacity);
        }
        self.capacity() - self.len()
    }

    /// Sends a reserved index.
    pub fn commit_send(&mut self, res: Reservation)
        requires
            old(self).wf(),
            old(self)@.reserved(res.idx),
        ensures
            final(self).wf(),
            final(self)@ == old(self)@.push(res.idx),
    {
        let idx: u8 = res.idx;
        let i: usize = slot_number(self.enqueue_pos);
        proof {
            let more = self.queued@.push(idx);
            assert(more.no_duplicates());
            lemma_distinct(more, self.capacity as nat);
            lemma_ring_tail(
                self.queue@,
                self.dequeue_pos,
                self.enqueue_pos,
                self.taken@,
                self.queued@,
            );
            lemma_ring_push(
                self.queue@,
                self.dequeue_pos,
                self.enqueue_pos,
                self.taken@,
                self.queued@,
                idx,
            );
            lemma_word_next(self.enqueue_pos, word_pos(self.enqueue_pos) as nat);
        }
        if let CommitStep::Claim { tail, slot } = commit_step(
            self.enqueue_pos,
            self.queue[i],
            idx,
        ) {
            self.queue[i] = slot;
            self.enqueue_pos = tail;
            proof {
                self.queued = Ghost(self.queued@.push(idx));
            }
        }
    }
}

impl<E: Clone> Core<E> {
    /// Reserves an index, unless the channel is closed or full. That it is closed
    /// with an error comes first, then that it is closed.
    pub fn try_reserve(&mut self) -> (r: Result<Reservation, TrySendError<E>>)
        requires
            old(self).wf(),
        ensures
            final(self).wf(),
            match r {
                Ok(res) => {
                    &&& !old(self)@.send_closed
                    &&& res.idx < old(self)@.capacity
                    &&& !old(self)@.in_use.contains(res.idx)
                    &&& final(self)@ == old(self)@.reserve(res.idx)
                    &&& final(self)@.reserved(res.idx)
                },
                Err(TrySendError::Full(_)) => {
                    &&& !old(self)@.send_closed
                    &&& old(self)@.exhausted()
                    &&& final(self)@ == old(self)@
                },
                Err(TrySendError::Disconnected(_)) => {
                    &&& old(self)@.send_closed
                    &&& old(self)@.error is None
                    &&& final(self)@ == old(self)@
                },
                Err(TrySendError::Error { message, error }) => {
                    &&& old(self)@.error matches Some(e)
                    &&& cloned(e, error)
                    &&& final(self)@ == old(self)@
                },
            },
    {
        proof {
            lemma_word(self.enqueue_pos);
        }
        if self.enqueue_pos & CLOSED != 0 {
            return match &self.error {
                Some(error) => Err(TrySendError::Error { message: (), error: error.clone() }),
                None => Err(TrySendError::Disconnected(())),
            };
        }
        match self.indices.allocate() {
            Some(idx) => Ok(Reservation { idx }),
            None => Err(TrySendError::Full(())),
        }
    }

    /// Receives the oldest index, which is reserved for the receiver from then
    /// on. If there is none, that the channel is closed with an error comes
    /// first, then that it is closed.
    pub fn try_dequeue(&mut self) -> (r: Result<Reservation, TryRecvError<E>>)
        requires
            old(self).wf(),
        ensures
            final(self).wf(),
            match r {
                Ok(res) => {
                    &&& old(self)@.queued.len() > 0
                    &&& res.idx == old(self)@.queued[0]
                    &&& final(self)@ == old(self)@.pop()
                    &&& final(self)@.reserved(res.idx)
                },
                Err(TryRecvError::Empty) => {
                    &&& old(self)@.queued.len() == 0
                    &&& !old(self)@.recv_closed
                    &&& final(self)@ == old(self)@
                },
                Err(TryRecvError::Disconnected) => {
                    &&& old(self)@.queued.len() == 0
                    &&& old(self)@.recv_closed
                    &&& old(self)@.error is None
                    &&& final(self)@ == old(self)@
                },
                Err(TryRecvError::Error(error)) => {
                    &&& old(self)@.queued.len() == 0
                    &&& old(self)@.error matches Some(e)
                    &&& cloned(e, error)
                    &&& final(self)@ == old(self)@
                },
            },
    {
        let i: usize = slot_number(self.dequeue_pos);
        proof {
            lemma_word(self.dequeue_pos);
            lemma_ring_head(
                self.queue@,
                self.dequeue_pos,
                self.enqueue_pos,
                self.taken@,
                self.queued@,
            );
            if self.queued@.len() > 0 {
                lemma_ring_pop(
                    self.queue@,
                    self.dequeue_pos,
                    self.enqueue_pos,
                    self.taken@,
                    self.queued@,
                );
                lemma_word_next(self.dequeue_pos, word_pos(self.dequeue_pos) as nat);
            }
        }
        match dequeue_step(self.dequeue_pos, self.queue[i]) {
            DequeueStep::Claim { head, slot, idx } => {
                self.queue[i] = slot;
                self.dequeue_pos = head;
                proof {
                    let rest = self.queued@.drop_first();
                    assert forall|k: int| 0 <= k < rest.len() implies self.indices@.contains(
                        #[trigger] rest[k],
                    ) by {
                        assert(rest[k] == self.queued@[k + 1]);
                    }
                    self.taken = Ghost(self.taken@ + 1);
                    self.queued = Ghost(rest);
                }
                Ok(Reservation { idx })
            },
            DequeueStep::Error => match &self.error {
                Some(error) => Err(TryRecvError::Error(error.clone())),
                None => Err(TryRecvError::Disconnected),
            },
            DequeueStep::Disconnected => Err(TryRecvError::Disconnected),
            _ => Err(TryRecvError::Empty),
        }
    }
}

// ---------------------------------------------------------------------------
// Laws
// ---------------------------------------------------------------------------

/// What the words tell, whatever they hold. Let `pos` be the position, and `seq` the number
/// in the slot, of which the lowest eight bits count. Who is to send may do so if they are
/// the same; if the slot is behind, it is still in use; if it is ahead, others were faster.
/// Who is to receive may do so if the slot is one ahead, and has nothing to receive if it
/// is less; then the flags say whether there will be something. Whoever moves on moves by
/// one, and keeps the flags.
pub proof fn words_tell_what_to_do(word: u16, slot: u16, idx: u8)
    requires
        idx < 64,
    ensures
        ({
            let pos = word as int / 4;
            let seq = slot as int / 64;
            let ahead = (seq - pos) % 256;
            let moved = (word + 4) % 65536;
            &&& match spec_commit_step(word, slot, idx) {
                CommitStep::Claim { tail, slot: stored } => ahead == 0 && tail == moved && stored
                    as int / 64 == (pos + 1) % 1024 && stored % 64 == idx,
                CommitStep::Full => ahead >= 128,
                CommitStep::Retry => 0 < ahead < 128,
            }
            &&& match spec_dequeue_step(word, slot) {
                DequeueStep::Claim { head, slot: stored, idx: found } => ahead == 1 && head == moved
                    && stored as int / 64 == (pos + 64) % 1024 && found == slot % 64,
                DequeueStep::Retry => 1 < ahead <= 128,
                DequeueStep::Empty => (ahead == 0 || ahead > 128) && word % 2 == 0,
                DequeueStep::Disconnected => (ahead == 0 || ahead > 128) && word % 4 == 1,
                DequeueStep::Error => (ahead == 0 || ahead > 128) && word % 4 == 3,
            }
        }),
{
}

} // verus!
