//! Those who wait for something with a number.
use vstd::prelude::*;

verus! {

/// Why someone could not wait, or waited in vain.
#[derive(Copy, Clone, Debug, PartialEq, Eq, Structural)]
pub enum WaitError {
    /// Nobody can wait any more.
    Closed,
    /// What was waited for has already been handed out.
    AlreadyConsumed,
    /// Whoever asks never waited.
    NeverAdded,
    /// Someone else waits for the same number.
    Duplicate,
}

/// Who is to be woken.
pub enum WakeOutcome<K> {
    /// The one who waited for the number.
    Woke(K),
    /// Nobody waits for the number.
    NoMatch,
    /// Nobody can wait any more.
    Closed,
}

/// Those who wait, each for another number.
pub struct Waiters<K> {
    waiting: Vec<(usize, K)>,
    closed: bool,
}

/// Those who wait.
pub struct WaitersView<K> {
    /// Who waits for which number.
    pub waiting: Map<usize, K>,
    /// Whether nobody can wait any more.
    pub closed: bool,
}

/// Whether the numbers in a list are all different.
spec fn distinct<K>(list: Seq<(usize, K)>) -> bool {
    forall|i: int, j: int| 0 <= i < j < list.len() ==> (#[trigger] list[i]).0 != (#[trigger] list[j]).0
}

/// Where a number stands in a list.
spec fn place<K>(list: Seq<(usize, K)>, key: usize) -> int {
    choose|i: int| 0 <= i < list.len() && (#[trigger] list[i]).0 == key
}

/// The list as a map.
spec fn by_key<K>(list: Seq<(usize, K)>) -> Map<usize, K> {
    Map::new(
        |key: usize| exists|i: int| 0 <= i < list.len() && (#[trigger] list[i]).0 == key,
        |key: usize| list[place(list, key)].1,
    )
}

proof fn lemma_place<K>(list: Seq<(usize, K)>, i: int)
    requires
        distinct(list),
        0 <= i < list.len(),
    ensures
        by_key(list).contains_key(list[i].0),
        by_key(list)[list[i].0] == list[i].1,
        place(list, list[i].0) == i,
{
    let j = place(list, list[i].0);
    assert(0 <= j < list.len() && list[j].0 == list[i].0);
}

proof fn lemma_push<K>(list: Seq<(usize, K)>, key: usize, waiter: K)
    requires
        distinct(list),
        !by_key(list).contains_key(key),
    ensures
        distinct(list.push((key, waiter))),
        by_key(list.push((key, waiter))) == by_key(list).insert(key, waiter),
{
    let more = list.push((key, waiter));
    assert(distinct(more)) by {
        assert forall|i: int, j: int| 0 <= i < j < more.len() implies (#[trigger] more[i]).0 != (
        #[trigger] more[j]).0 by {
            if j == list.len() {
                lemma_place(list, i);
            }
        }
    }
    assert(by_key(more) =~= by_key(list).insert(key, waiter)) by {
        assert forall|k: usize| #[trigger]
            by_key(more).contains_key(k) <==> by_key(list).insert(key, waiter).contains_key(k) by {
            if by_key(list).contains_key(k) {
                let i = place(list, k);
                assert(more[i].0 == k);
            }
            if k == key {
                assert(more[list.len() as int].0 == k);
            }
            if by_key(more).contains_key(k) && k != key {
                let i = place(more, k);
                assert(list[i].0 == k);
            }
        }
        assert forall|k: usize| by_key(more).contains_key(k) implies #[trigger] by_key(more)[k]
            == by_key(list).insert(key, waiter)[k] by {
            let i = place(more, k);
            lemma_place(more, i);
            if i < list.len() {
                lemma_place(list, i);
            }
        }
    }
}

proof fn lemma_remove<K>(list: Seq<(usize, K)>, i: int)
    requires
        distinct(list),
        0 <= i < list.len(),
    ensures
        distinct(list.remove(i)),
        by_key(list.remove(i)) == by_key(list).remove(list[i].0),
{
    let less = list.remove(i);
    let key = list[i].0;
    assert forall|a: int, b: int| 0 <= a < b < less.len() implies (#[trigger] less[a]).0 != (
    #[trigger] less[b]).0 by {
        let a1 = if a < i {
            a
        } else {
            a + 1
        };
        let b1 = if b < i {
            b
        } else {
            b + 1
        };
        assert(less[a] == list[a1] && less[b] == list[b1]);
    }
    assert(by_key(less) =~= by_key(list).remove(key)) by {
        assert forall|k: usize| #[trigger]
            by_key(less).contains_key(k) <==> by_key(list).remove(key).contains_key(k) by {
            if by_key(less).contains_key(k) {
                let a = place(less, k);
                let a1 = if a < i {
                    a
                } else {
                    a + 1
                };
                assert(list[a1] == less[a]);
                lemma_place(list, a1);
                lemma_place(list, i);
            }
            if by_key(list).contains_key(k) && k != key {
                let a = place(list, k);
                let a1 = if a < i {
                    a
                } else {
                    a - 1
                };
                assert(less[a1] == list[a]);
            }
        }
        assert forall|k: usize| by_key(less).contains_key(k) implies #[trigger] by_key(less)[k]
            == by_key(list).remove(key)[k] by {
            let a = place(less, k);
            lemma_place(less, a);
            let a1 = if a < i {
                a
            } else {
                a + 1
            };
            assert(list[a1] == less[a]);
            lemma_place(list, a1);
        }
    }
}

/// A list of different numbers is as long as the map has entries.
proof fn lemma_len<K>(list: Seq<(usize, K)>)
    requires
        distinct(list),
    ensures
        by_key(list).dom().finite(),
        by_key(list).len() == list.len(),
    decreases list.len(),
{
    if list.len() == 0 {
        assert(by_key(list) =~= Map::empty());
    } else {
        let last = list.len() - 1;
        lemma_remove(list, last);
        lemma_len(list.remove(last));
        lemma_place(list, last);
    }
}

impl<K> View for Waiters<K> {
    type V = WaitersView<K>;

    closed spec fn view(&self) -> WaitersView<K> {
        WaitersView { waiting: by_key(self.waiting@), closed: self.closed }
    }
}

impl<K> Waiters<K> {
    /// Nobody waits for what someone else waits for, and nobody waits when nobody
    /// can.
    pub closed spec fn wf(self) -> bool {
        &&& distinct(self.waiting@)
        &&& self.closed ==> self.waiting@.len() == 0
    }

    /// There are fewer waiters than numbers.
    pub fn check_len(&self)
        requires
            self.wf(),
        ensures
            self@.waiting.dom().finite(),
            self@.waiting.len() <= usize::MAX,
            self@.closed ==> self@.waiting == Map::<usize, K>::empty(),
    {
        let len: usize = self.waiting.len();
        proof {
            lemma_len(self.waiting@);
            if self.closed {
                assert(by_key(self.waiting@) =~= Map::empty());
            }
        }
    }

    /// Nobody waits.
    pub fn new() -> (r: Waiters<K>)
        ensures
            r.wf(),
            r@ == (WaitersView::<K> { waiting: Map::empty(), closed: false }),
    {
        let r = Waiters { waiting: Vec::new(), closed: false };
        assert(by_key(r.waiting@) =~= Map::empty());
        r
    }

    /// The place of the one who waits for `key`.
    fn find(&self, key: usize) -> (r: Option<usize>)
        requires
            self.wf(),
        ensures
            match r {
                Some(i) => {
                    &&& i < self.waiting@.len()
                    &&& self.waiting@[i as int].0 == key
                    &&& self@.waiting.contains_key(key)
                    &&& self@.waiting[key] == self.waiting@[i as int].1
                },
                None => !self@.waiting.contains_key(key),
            },
    {
        let mut i: usize = 0;
        while i < self.waiting.len()
            invariant
                self.wf(),
                i <= self.waiting@.len(),
                forall|j: int| 0 <= j < i ==> (#[trigger] self.waiting@[j]).0 != key,
            decreases self.waiting@.len() - i,
        {
            if self.waiting[i].0 == key {
                proof {
                    lemma_place(self.waiting@, i as int);
                }
                return Some(i);
            }
            i += 1;
        }
        None
    }

    /// Lets someone wait for `key`, unless someone does, or nobody can.
    pub fn enqueue(&mut self, key: usize, waiter: K) -> (r: Result<(), (WaitError, K)>)
        requires
            old(self).wf(),
        ensures
            final(self).wf(),
            match r {
                Ok(_) => {
                    &&& !old(self)@.closed
                    &&& !old(self)@.waiting.contains_key(key)
                    &&& final(self)@ == (WaitersView {
                        waiting: old(self)@.waiting.insert(key, waiter),
                        ..old(self)@
                    })
                },
                Err((WaitError::Closed, back)) => {
                    &&& old(self)@.closed
                    &&& back == waiter
                    &&& final(self)@ == old(self)@
                },
                Err((WaitError::Duplicate, back)) => {
                    &&& !old(self)@.closed
                    &&& old(self)@.waiting.contains_key(key)
                    &&& back == waiter
                    &&& final(self)@ == old(self)@
                },
                Err(_) => false,
            },
    {
        if self.closed {
            return Err((WaitError::Closed, waiter));
        }
        match self.find(key) {
            Some(_) => Err((WaitError::Duplicate, waiter)),
            None => {
                proof {
                    lemma_push(self.waiting@, key, waiter);
                }
                self.waiting.push((key, waiter));
                Ok(())
            },
        }
    }

    /// Removes the one who waits for `key`, to be woken.
    pub fn wake(&mut self, key: usize) -> (r: WakeOutcome<K>)
        requires
            old(self).wf(),
        ensures
            final(self).wf(),
            match r {
                WakeOutcome::Woke(waiter) => {
                    &&& !old(self)@.closed
                    &&& old(self)@.waiting.contains_key(key)
                    &&& waiter == old(self)@.waiting[key]
                    &&& final(self)@ == (WaitersView {
                        waiting: old(self)@.waiting.remove(key),
                        ..old(self)@
                    })
                },
                WakeOutcome::NoMatch => {
                    &&& !old(self)@.closed
                    &&& !old(self)@.waiting.contains_key(key)
                    &&& final(self)@ == old(self)@
                },
                WakeOutcome::Closed => old(self)@.closed && final(self)@ == old(self)@,
            },
    {
        if self.closed {
            return WakeOutcome::Closed;
        }
        match self.find(key) {
            Some(i) => {
                proof {
                    lemma_remove(self.waiting@, i as int);
                }
                let (_, waiter) = self.waiting.remove(i);
                WakeOutcome::Woke(waiter)
            },
            None => WakeOutcome::NoMatch,
        }
    }

    /// Lets nobody wait any more, and returns those who did, to be woken with an
    /// error.
    pub fn close(&mut self) -> (r: Vec<(usize, K)>)
        requires
            old(self).wf(),
        ensures
            final(self).wf(),
            final(self)@ == (WaitersView::<K> { waiting: Map::empty(), closed: true }),
            r@.len() == old(self)@.waiting.len(),
            forall|i: int|
                0 <= i < r@.len() ==> old(self)@.waiting.contains_key((#[trigger] r@[i]).0)
                    && old(self)@.waiting[r@[i].0] == r@[i].1,
            forall|i: int, j: int|
                0 <= i < j < r@.len() ==> (#[trigger] r@[i]).0 != (#[trigger] r@[j]).0,
    {
        let mut all: Vec<(usize, K)> = Vec::new();
        proof {
            lemma_len(self.waiting@);
            assert forall|i: int| 0 <= i < self.waiting@.len() implies self@.waiting.contains_key(
                (#[trigger] self.waiting@[i]).0,
            ) && self@.waiting[self.waiting@[i].0] == self.waiting@[i].1 by {
                lemma_place(self.waiting@, i);
            }
        }
        core::mem::swap(&mut self.waiting, &mut all);
        self.closed = true;
        assert(by_key(self.waiting@) =~= Map::empty());
        all
    }
}

} // verus!
