//! The queue while several senders and the receiver are at work.
//!
//! To send, a sender first moves the position word on, which makes the position
//! its own, and then stores its index into the slot of that position. To receive,
//! the receiver moves its position word on, and then hands the slot back to the
//! senders. Others may work on the queue between the two. The words that a party
//! goes by are those that it finds at the time it moves the position word on:
//! had the position word changed since it was read, moving it on would fail
//! (unless 16384 messages passed meanwhile, after which positions repeat), and
//! while it does not change, nobody else stores into its slot.
use super::channel_core::{
    at, free_slot, lead, lemma_at, lemma_at_pos, lemma_free_slot, lemma_sent_slot, lemma_word_next,
    sent_slot, slot_of, slot_seq, spec_commit_step, spec_dequeue_step, word_closed, word_closed_error,
    word_pos, CommitStep, DequeueStep,
};
use vstd::prelude::*;

verus! {

/// The words of a queue, and what has happened to it.
pub struct SharedQueue {
    /// The slots.
    pub slots: Seq<u16>,
    /// The position word of the receiver.
    pub head: u16,
    /// The position word of the senders.
    pub tail: u16,
    /// The indices for which positions were claimed, in the order in which they
    /// were.
    pub claimed: Seq<u8>,
    /// The positions into whose slots the indices were stored.
    pub stored: Set<int>,
    /// The number of messages that were received.
    pub taken: nat,
    /// Whether the receiver has not handed back the slot of the last message yet.
    pub reading: bool,
}

impl SharedQueue {
    /// A queue that nobody has used yet.
    pub open spec fn new() -> SharedQueue {
        SharedQueue {
            slots: Seq::new(64, |i: int| slot_of(i, 0)),
            head: 0,
            tail: 0,
            claimed: Seq::empty(),
            stored: Set::empty(),
            taken: 0,
            reading: false,
        }
    }

    /// The number of slots that are in use.
    pub open spec fn in_flight(self) -> int {
        self.claimed.len() - self.taken + if self.reading {
            1int
        } else {
            0int
        }
    }

    /// The slot that a sender looks at.
    pub open spec fn tail_slot(self) -> u16 {
        self.slots[word_pos(self.tail) % 64]
    }

    /// The slot that the receiver looks at.
    pub open spec fn head_slot(self) -> u16 {
        self.slots[word_pos(self.head) % 64]
    }

    /// Whether the words agree with what has happened. The slot of a message that
    /// can be received has the sequence number after its position; a slot that was
    /// claimed only, or not even that, has the sequence number of its position.
    pub open spec fn valid(self) -> bool {
        &&& self.slots.len() == 64
        &&& self.taken <= self.claimed.len()
        &&& self.in_flight() <= 64
        &&& self.reading ==> self.taken > 0
        &&& word_pos(self.head) == self.taken % 16384
        &&& word_pos(self.tail) == self.claimed.len() % 16384
        &&& forall|n: int| #[trigger] self.stored.contains(n) ==> 0 <= n < self.claimed.len()
        &&& forall|n: int| 0 <= n < self.taken ==> #[trigger] self.stored.contains(n)
        &&& forall|n: int| 0 <= n < self.claimed.len() ==> #[trigger] self.claimed[n] < 64
        &&& forall|n: int|
            self.taken <= n < self.claimed.len() && self.stored.contains(n) ==> self.slots[
            #[trigger] at(n)] == sent_slot(n, self.claimed[n])
        &&& forall|n: int|
            self.taken <= n < self.claimed.len() && !self.stored.contains(n) ==> free_slot(
                self.slots[#[trigger] at(n)],
                n,
            )
        &&& forall|n: int|
            self.claimed.len() <= n < self.taken + 64 - if self.reading {
                1int
            } else {
                0int
            } ==> free_slot(self.slots[#[trigger] at(n)], n)
    }

    /// A sender makes the next position its own.
    pub open spec fn claim(self, idx: u8, tail: u16) -> SharedQueue {
        SharedQueue { tail, claimed: self.claimed.push(idx), ..self }
    }

    /// The sender that owns position `n` stores its index, as the slot word `slot`.
    pub open spec fn store(self, n: int, slot: u16) -> SharedQueue {
        SharedQueue {
            slots: self.slots.update(n % 64, slot),
            stored: self.stored.insert(n),
            ..self
        }
    }

    /// The receiver takes the next message.
    pub open spec fn take(self, head: u16) -> SharedQueue {
        SharedQueue { head, taken: self.taken + 1, reading: true, ..self }
    }

    /// The receiver hands back the slot of the last message, as the slot word
    /// `slot`.
    pub open spec fn hand_back(self, slot: u16) -> SharedQueue {
        SharedQueue {
            slots: self.slots.update((self.taken - 1) % 64, slot),
            reading: false,
            ..self
        }
    }

    /// Somebody sets flags in the position words.
    pub open spec fn flag(self, head: u16, tail: u16) -> SharedQueue {
        SharedQueue { head, tail, ..self }
    }
}

/// A queue that nobody has used yet is in order.
pub proof fn unused_queues_are_in_order()
    ensures
        SharedQueue::new().valid(),
{
    let q = SharedQueue::new();
    assert forall|n: int| 0 <= n < 64 implies free_slot(q.slots[#[trigger] at(n)], n) by {
        reveal(free_slot);
        lemma_at_pos(n, n);
    }
}

/// While fewer than 64 slots are in use, a sender always finds the slot of the next
/// position free, whatever the other senders and the receiver have left undone.
/// The position becomes its own, and the queue stays in order.
pub proof fn senders_find_free_slots(q: SharedQueue, idx: u8)
    requires
        q.valid(),
        q.in_flight() < 64,
        idx < 64,
    ensures
        spec_commit_step(q.tail, q.tail_slot(), idx) matches CommitStep::Claim { tail, slot }
            && q.claim(idx, tail).valid() && q.claim(idx, tail).in_flight() == q.in_flight() + 1,
{
    let n = q.claimed.len() as int;
    lemma_at_pos(word_pos(q.tail), n);
    lemma_free_slot(q.slots[at(n)], word_pos(q.tail), n);
    lemma_word_next(q.tail, q.claimed.len());
    let after = q.claim(idx, super::channel_core::word_next(q.tail));
    assert(!q.stored.contains(n));
    assert forall|m: int| 0 <= m < after.claimed.len() implies #[trigger] after.claimed[m]
        < 64 by {
        if m < n {
            assert(q.claimed[m] < 64);
        }
    }
    assert forall|m: int|
        after.taken <= m < after.claimed.len() && after.stored.contains(m) implies after.slots[
    #[trigger] at(m)] == sent_slot(m, after.claimed[m]) by {
        assert(m < n);
        assert(after.claimed[m] == q.claimed[m]);
    }
    assert forall|m: int|
        after.taken <= m < after.claimed.len() && !after.stored.contains(m) implies free_slot(
        after.slots[#[trigger] at(m)],
        m,
    ) by {}
}

/// A sender that owns a position may store its index whenever it gets to it:
/// positions that were claimed later may be ahead of it, and those claimed earlier
/// may be behind. The word that it stores is the one that was decided on when it
/// claimed the position. The queue stays in order.
pub proof fn owners_may_store_at_any_time(q: SharedQueue, n: int, tail: u16, val: u16, slot: u16)
    requires
        q.valid(),
        0 <= n < q.claimed.len(),
        !q.stored.contains(n),
        word_pos(tail) == n % 16384,
        spec_commit_step(tail, val, q.claimed[n]) matches CommitStep::Claim { tail: _, slot: s }
            && s == slot,
    ensures
        q.store(n, slot).valid(),
        q.store(n, slot).in_flight() == q.in_flight(),
{
    let after = q.store(n, slot);
    let len = q.claimed.len() as int;
    assert(q.taken <= n);
    assert(q.claimed[n] < 64);
    lemma_at_pos(word_pos(tail), n);
    lemma_at_pos(n % 16384, n);
    assert(n % 64 == at(n)) by {
        reveal(at);
    }
    lemma_sent_slot(word_pos(tail), n, q.claimed[n]);
    assert forall|m: int|
        after.taken <= m < after.claimed.len() && after.stored.contains(m) implies after.slots[
    #[trigger] at(m)] == sent_slot(m, after.claimed[m]) by {
        lemma_at(m, n);
        lemma_at(n, m);
    }
    assert forall|m: int|
        after.taken <= m < after.claimed.len() && !after.stored.contains(m) implies free_slot(
        after.slots[#[trigger] at(m)],
        m,
    ) by {
        assert(!q.stored.contains(m));
        lemma_at(m, n);
        lemma_at(n, m);
    }
    assert forall|m: int|
        after.claimed.len() <= m < after.taken + 64 - if after.reading {
            1int
        } else {
            0int
        } implies free_slot(after.slots[#[trigger] at(m)], m) by {
        lemma_at(n, m);
    }
}

/// The receiver gets the messages in the order in which their positions were
/// claimed, each once, and none before it was stored: it gets the oldest message
/// that it has not got yet if that was stored, and nothing otherwise, even if
/// later messages were stored. The queue stays in order.
pub proof fn receiver_gets_messages_in_order(q: SharedQueue)
    requires
        q.valid(),
        !q.reading,
    ensures
        q.stored.contains(q.taken as int) ==> {
            &&& spec_dequeue_step(q.head, q.head_slot()) matches DequeueStep::Claim {
                head,
                slot: _,
                idx,
            }
            &&& idx == q.claimed[q.taken as int]
            &&& q.take(head).valid()
            &&& q.take(head).in_flight() == q.in_flight()
        },
        !q.stored.contains(q.taken as int) ==> spec_dequeue_step(q.head, q.head_slot()) == (
        if word_closed_error(q.head) {
            DequeueStep::Error
        } else if word_closed(q.head) {
            DequeueStep::Disconnected
        } else {
            DequeueStep::Empty
        }),
{
    let t = q.taken as int;
    lemma_at_pos(word_pos(q.head), t);
    lemma_word_next(q.head, q.taken);
    if q.stored.contains(t) {
        assert(q.claimed[t] < 64);
        lemma_sent_slot(word_pos(q.head), t, q.claimed[t]);
        assert(q.slots[at(t)] == sent_slot(t, q.claimed[t]));
    } else {
        assert(free_slot(q.slots[at(t)], t));
        lemma_free_slot(q.slots[at(t)], word_pos(q.head), t);
    }
}

/// The receiver may hand back a slot whenever it gets to it. The word that it
/// stores is the one that was decided on when it took the message. The queue stays
/// in order, and has one more slot to send with.
pub proof fn receiver_may_hand_back_at_any_time(
    q: SharedQueue,
    head: u16,
    val: u16,
    slot: u16,
)
    requires
        q.valid(),
        q.reading,
        word_pos(head) == (q.taken - 1) % 16384,
        spec_dequeue_step(head, val) matches DequeueStep::Claim { head: _, slot: s, idx: _ }
            && s == slot,
    ensures
        q.hand_back(slot).valid(),
        q.hand_back(slot).in_flight() == q.in_flight() - 1,
{
    let after = q.hand_back(slot);
    let n = q.taken - 1;
    lemma_free_slot(slot, word_pos(head), n);
    assert(n % 64 == at(n)) by {
        reveal(at);
    }
    assert forall|m: int|
        after.taken <= m < after.claimed.len() && after.stored.contains(m) implies after.slots[
    #[trigger] at(m)] == sent_slot(m, after.claimed[m]) by {
        lemma_at(n, m);
    }
    assert forall|m: int|
        after.taken <= m < after.claimed.len() && !after.stored.contains(m) implies free_slot(
        after.slots[#[trigger] at(m)],
        m,
    ) by {
        lemma_at(n, m);
    }
    assert forall|m: int| after.claimed.len() <= m < after.taken + 64 implies free_slot(
        after.slots[#[trigger] at(m)],
        m,
    ) by {
        if m == n + 64 {
            lemma_at(n, m);
        } else {
            lemma_at(n, m);
            assert(free_slot(q.slots[at(m)], m));
        }
    }
}

/// What a sender has seen of a free slot, and the receiver of a message, stays so
/// until the position word is moved on, whatever the others store meanwhile.
pub proof fn what_was_seen_stays(q: SharedQueue, n: int, slot: u16)
    requires
        q.valid(),
        0 <= n < q.claimed.len(),
        !q.stored.contains(n),
    ensures
        q.in_flight() < 64 ==> q.store(n, slot).tail_slot() == q.tail_slot(),
        q.in_flight() < 64 && q.reading ==> q.hand_back(slot).tail_slot() == q.tail_slot(),
        q.stored.contains(q.taken as int) ==> q.store(n, slot).head_slot() == q.head_slot(),
{
    let len = q.claimed.len() as int;
    let t = q.taken as int;
    assert(t <= n);
    lemma_at_pos(word_pos(q.tail), len);
    lemma_at_pos(word_pos(q.head), t);
    assert(n % 64 == at(n) && (t - 1) % 64 == at(t - 1)) by {
        reveal(at);
    }
    lemma_at(n, len);
    lemma_at(t - 1, len);
    lemma_at(t, n);
}

/// Closing the channel does not disturb what is in it.
pub proof fn closing_does_not_disturb_the_queue(q: SharedQueue, head: u16, tail: u16)
    requires
        q.valid(),
        word_pos(head) == word_pos(q.head),
        word_pos(tail) == word_pos(q.tail),
    ensures
        q.flag(head, tail).valid(),
        q.flag(head, tail).in_flight() == q.in_flight(),
        q.flag(head, tail).tail_slot() == q.tail_slot(),
        q.flag(head, tail).head_slot() == q.head_slot(),
{
}

/// A sender that has missed that its position was used finds the slot ahead, and looks
/// again; so does a receiver whose position is out of date.
pub proof fn stale_positions_are_looked_at_again(q: SharedQueue, n: int, word: u16, idx: u8)
    requires
        q.valid(),
        0 <= n < q.claimed.len(),
        q.claimed.len() <= n + 64,
        q.stored.contains(n),
        q.reading ==> n != q.taken - 1,
        word_pos(word) == n % 16384,
    ensures
        spec_commit_step(word, q.slots[n % 64], idx) is Retry,
        n < q.taken ==> spec_dequeue_step(word, q.slots[n % 64]) is Retry,
{
    assert(n % 64 == at(n)) by {
        reveal(at);
    }
    let slot = q.slots[at(n)];
    let pos = word_pos(word);
    let seq = slot_seq(slot);
    if n >= q.taken {
        lemma_stored_slot(q, n, pos);
        lemma_lead_of_one(seq, pos);
    } else {
        lemma_handed_back_slot(q, n);
        lemma_lead_of_a_lap(seq, pos, n);
    }
}

proof fn lemma_stored_slot(q: SharedQueue, n: int, pos: int)
    requires
        q.valid(),
        q.taken <= n < q.claimed.len(),
        q.stored.contains(n),
        pos == n % 16384,
    ensures
        lead(slot_seq(q.slots[at(n)]), pos + 1) == 0,
{
    assert(q.claimed[n] < 64);
    lemma_sent_slot(pos, n, q.claimed[n]);
}

proof fn lemma_handed_back_slot(q: SharedQueue, n: int)
    requires
        q.valid(),
        0 <= n < q.taken,
        q.claimed.len() <= n + 64,
        q.reading ==> n != q.taken - 1,
    ensures
        lead(slot_seq(q.slots[at(n)]), (n + 64) % 16384) == 0,
{
    lemma_at(n, n + 64);
    assert(free_slot(q.slots[at(n + 64)], n + 64));
    lemma_free_slot(q.slots[at(n)], (n + 64) % 16384, n + 64);
}

proof fn lemma_lead_of_one(seq: int, pos: int)
    requires
        lead(seq, pos + 1) == 0,
    ensures
        lead(seq, pos) == 1,
{
}

proof fn lemma_lead_of_a_lap(seq: int, pos: int, n: int)
    requires
        pos == n % 16384,
        lead(seq, (n + 64) % 16384) == 0,
    ensures
        lead(seq, pos) == 64,
        lead(seq, pos + 1) == 63,
{
    let turn = (n + 64) % 16384;
    assert(turn == pos + 64 || turn == pos + 64 - 16384);
}

} // verus!
