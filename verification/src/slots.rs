//! A fixed number of slots, each of which holds a value or is vacant.
//!
//! Vacated slots form a chain through the table: the slot that was vacated last
//! is filled first. A slot that was never used is taken only when no vacated
//! slot is left.
use vstd::prelude::*;

verus! {

/// One slot of a table.
pub enum Entry<S> {
    /// The slot was never used.
    Unused,
    /// The slot was vacated; the index of the slot to be filled after it.
    Closed(usize),
    /// The slot holds a value.
    Occupied(S),
}

/// A table of slots.
pub struct Slots<S> {
    entries: Vec<Entry<S>>,
    /// The slot to be filled next.
    next: usize,
    /// The number of occupied slots.
    len: usize,
    /// The vacated slots, the one to be filled next at the end.
    vacated: Ghost<Seq<int>>,
    /// The number of slots that were ever used.
    fresh: Ghost<int>,
}

/// The values among `entries`, by their index.
spec fn occupied<S>(entries: Seq<Entry<S>>) -> Map<int, S> {
    Map::new(
        |i: int| 0 <= i < entries.len() && entries[i] is Occupied,
        |i: int| entries[i]->Occupied_0,
    )
}

/// The slot to be filled after the `k`-th of the vacated ones.
#[verifier::opaque]
spec fn follower(vacated: Seq<int>, fresh: int, k: int) -> int {
    if k == 0 {
        fresh
    } else {
        vacated[k - 1]
    }
}

/// The first `fresh` entries are those that were used, and those of them that
/// are not occupied are the ones listed in `vacated`. Each of these leads to the
/// one before it, and the first of them to the first entry that was not used.
#[verifier::opaque]
spec fn chained<S>(entries: Seq<Entry<S>>, vacated: Seq<int>, fresh: int) -> bool {
    &&& 0 <= fresh <= entries.len()
    &&& forall|i: int| 0 <= i < entries.len() ==> (i >= fresh <==> #[trigger] entries[i] is Unused)
    &&& vacated.no_duplicates()
    &&& forall|k: int|
        0 <= k < vacated.len() ==> 0 <= #[trigger] vacated[k] < fresh && entries[vacated[k]]
            == Entry::<S>::Closed(follower(vacated, fresh, k) as usize)
    &&& forall|i: int|
        0 <= i < entries.len() && entries[i] is Closed ==> #[trigger] vacated.contains(i)
}

proof fn lemma_fill_fresh<S>(entries: Seq<Entry<S>>, vacated: Seq<int>, fresh: int, value: S)
    requires
        chained(entries, vacated, fresh),
        vacated.len() == 0,
        fresh < entries.len(),
    ensures
        entries[fresh] is Unused,
        chained(entries.update(fresh, Entry::Occupied(value)), vacated, fresh + 1),
        occupied(entries.update(fresh, Entry::Occupied(value))) == occupied(entries).insert(
            fresh,
            value,
        ),
{
    reveal(chained);
    let after = entries.update(fresh, Entry::Occupied(value));
    assert(occupied(after) =~= occupied(entries).insert(fresh, value));
    assert forall|i: int|
        0 <= i < after.len() && after[i] is Closed implies #[trigger] vacated.contains(i) by {
        assert(entries[i] is Closed);
    }
}

proof fn lemma_fill_vacated<S>(entries: Seq<Entry<S>>, vacated: Seq<int>, fresh: int, value: S)
    requires
        chained(entries, vacated, fresh),
        entries.len() <= usize::MAX,
        vacated.len() > 0,
    ensures
        0 <= vacated.last() < fresh,
        entries[vacated.last()] == Entry::<S>::Closed(
            (if vacated.len() == 1 {
                fresh
            } else {
                vacated[vacated.len() - 2]
            }) as usize,
        ),
        vacated.len() > 1 ==> 0 <= vacated[vacated.len() - 2] < fresh,
        chained(
            entries.update(vacated.last(), Entry::Occupied(value)),
            vacated.drop_last(),
            fresh,
        ),
        occupied(entries.update(vacated.last(), Entry::Occupied(value))) == occupied(
            entries,
        ).insert(vacated.last(), value),
{
    reveal(chained);
    let top = vacated.last();
    let after = entries.update(top, Entry::Occupied(value));
    let rest = vacated.drop_last();
    let last = vacated.len() - 1;
    assert(entries[vacated[last]] == Entry::<S>::Closed(follower(vacated, fresh, last) as usize));
    assert(follower(vacated, fresh, last) == if last == 0 {
        fresh
    } else {
        vacated[last - 1]
    }) by {
        reveal(follower);
    }
    if last > 0 {
        assert(0 <= vacated[last - 1] < fresh);
    }
    assert forall|k: int| 0 <= k < rest.len() implies 0 <= #[trigger] rest[k] < fresh
        && after[rest[k]] == Entry::<S>::Closed(follower(rest, fresh, k) as usize) by {
        assert(rest[k] == vacated[k]);
        assert(vacated[k] != vacated[last]);
        assert(follower(rest, fresh, k) == follower(vacated, fresh, k)) by {
            reveal(follower);
        }
    }
    assert forall|i: int|
        0 <= i < after.len() && after[i] is Closed implies #[trigger] rest.contains(i) by {
        assert(entries[i] is Closed);
        assert(vacated.contains(i));
        let k = vacated.index_of(i);
        assert(rest[k] == i);
    }
    assert(occupied(after) =~= occupied(entries).insert(top, value));
}

proof fn lemma_vacate<S>(entries: Seq<Entry<S>>, vacated: Seq<int>, fresh: int, i: int)
    requires
        chained(entries, vacated, fresh),
        entries.len() <= usize::MAX,
        0 <= i < entries.len(),
        entries[i] is Occupied,
    ensures
        ({
            let next = if vacated.len() == 0 {
                fresh
            } else {
                vacated.last()
            };
            let after = entries.update(i, Entry::Closed(next as usize));
            &&& chained(after, vacated.push(i), fresh)
            &&& occupied(after) == occupied(entries).remove(i)
            &&& vacated.len() < fresh
        }),
{
    reveal(chained);
    let next = if vacated.len() == 0 {
        fresh
    } else {
        vacated.last()
    };
    let after = entries.update(i, Entry::Closed(next as usize));
    let pushed = vacated.push(i);
    assert(!vacated.contains(i));
    assert forall|k: int| 0 <= k < pushed.len() implies 0 <= #[trigger] pushed[k] < fresh
        && after[pushed[k]] == Entry::<S>::Closed(follower(pushed, fresh, k) as usize) by {
        assert(follower(pushed, fresh, k) == if k < vacated.len() {
            follower(vacated, fresh, k)
        } else {
            next
        }) by {
            reveal(follower);
        }
        if k < vacated.len() {
            assert(pushed[k] == vacated[k]);
            assert(vacated.contains(vacated[k]));
        }
    }
    assert forall|j: int|
        0 <= j < after.len() && after[j] is Closed implies #[trigger] pushed.contains(j) by {
        if j == i {
            assert(pushed[vacated.len() as int] == j);
        } else {
            assert(vacated.contains(j));
            let k = vacated.index_of(j);
            assert(pushed[k] == j);
        }
    }
    assert(occupied(after) =~= occupied(entries).remove(i));
    assert(chained(after, pushed, fresh));
    lemma_count(after, pushed, fresh);
}

proof fn lemma_replace<S>(entries: Seq<Entry<S>>, vacated: Seq<int>, fresh: int, i: int, value: S)
    requires
        chained(entries, vacated, fresh),
        0 <= i < entries.len(),
        entries[i] is Occupied,
    ensures
        chained(entries.update(i, Entry::Occupied(value)), vacated, fresh),
        occupied(entries.update(i, Entry::Occupied(value))) == occupied(entries).insert(i, value),
{
    reveal(chained);
    assert(occupied(entries.update(i, Entry::Occupied(value))) =~= occupied(entries).insert(
        i,
        value,
    ));
}

proof fn lemma_count<S>(entries: Seq<Entry<S>>, vacated: Seq<int>, fresh: int)
    requires
        chained(entries, vacated, fresh),
    ensures
        0 <= fresh <= entries.len(),
        vacated.no_duplicates(),
        vacated.len() <= fresh,
        forall|i: int|
            #![trigger occupied(entries).contains_key(i)]
            occupied(entries).contains_key(i) <==> 0 <= i < fresh && !vacated.contains(i),
        forall|i: int| #[trigger] vacated.contains(i) ==> 0 <= i < fresh,
        occupied(entries).dom().finite(),
        occupied(entries).len() == fresh - vacated.len(),
{
    reveal(chained);
    let used = vstd::set_lib::set_int_range(0, fresh);
    let set = vacated.to_set();
    vstd::set_lib::lemma_int_range(0, fresh);
    vacated.unique_seq_to_set();
    assert forall|i: int| vacated.contains(i) implies 0 <= i < fresh by {
        let k = vacated.index_of(i);
        assert(0 <= vacated[k] < fresh);
    }
    assert forall|i: int| #[trigger]
        occupied(entries).contains_key(i) <==> 0 <= i < fresh && !vacated.contains(i) by {
        if vacated.contains(i) {
            let k = vacated.index_of(i);
            assert(entries[vacated[k]] is Closed);
        }
        if 0 <= i < fresh && !vacated.contains(i) {
            assert(!(entries[i] is Unused));
        }
    }
    assert(occupied(entries).dom() =~= used.difference(set));
    vstd::set_lib::lemma_set_disjoint_lens(used.difference(set), set);
    assert(used.difference(set) + set =~= used);
}

impl<S> View for Slots<S> {
    type V = Map<int, S>;

    /// The values in the table, by the index of their slot.
    closed spec fn view(&self) -> Map<int, S> {
        occupied(self.entries@)
    }
}

impl<S> Slots<S> {
    /// The vacated slots, the one to be filled next at the end.
    pub closed spec fn vacated(self) -> Seq<int> {
        self.vacated@
    }

    /// The number of slots that were ever used.
    pub closed spec fn fresh(self) -> int {
        self.fresh@
    }

    /// The number of slots.
    pub closed spec fn spec_capacity(self) -> nat {
        self.entries@.len()
    }

    /// The number of occupied slots.
    pub open spec fn spec_len(self) -> int {
        self.fresh() - self.vacated().len()
    }

    /// The slot to be filled next.
    pub open spec fn spec_next(self) -> int {
        if self.vacated().len() == 0 {
            self.fresh()
        } else {
            self.vacated().last()
        }
    }

    /// The slots that were used are those that are occupied and those that were
    /// vacated, and the chain through the vacated ones is intact.
    pub closed spec fn wf(self) -> bool {
        &&& chained(self.entries@, self.vacated@, self.fresh@)
        &&& self.len == self.spec_len()
        &&& self.next == self.spec_next()
    }

    /// The facts about a table that do not depend on how it is laid out: an
    /// occupied slot is below the number of slots ever used, the vacated ones
    /// are not occupied, and as many are occupied as the length says.
    pub proof fn lemma_wf(self)
        requires
            self.wf(),
        ensures
            0 <= self.spec_len() <= self.fresh() <= self.spec_capacity(),
            self.vacated().no_duplicates(),
            forall|i: int| #[trigger]
                self@.contains_key(i) <==> 0 <= i < self.fresh() && !self.vacated().contains(i),
            forall|i: int| #[trigger]
                self.vacated().contains(i) ==> 0 <= i < self.fresh(),
            self@.dom().finite(),
            self@.len() == self.spec_len(),
            self.spec_len() < self.spec_capacity() ==> 0 <= self.spec_next()
                < self.spec_capacity() && !self@.contains_key(self.spec_next()),
    {
        lemma_count(self.entries@, self.vacated@, self.fresh@);
        if self.vacated@.len() > 0 {
            assert(self.vacated().contains(self.vacated().last()));
        }
    }

    /// A table of `capacity` slots, none of which is occupied.
    pub fn new(capacity: usize) -> (r: Slots<S>)
        ensures
            r.wf(),
            r@ == Map::<int, S>::empty(),
            r.spec_capacity() == capacity,
            r.fresh() == 0,
            r.vacated() == Seq::<int>::empty(),
    {
        let mut entries: Vec<Entry<S>> = Vec::new();
        let mut i: usize = 0;
        while i < capacity
            invariant
                i <= capacity,
                entries@.len() == i,
                forall|j: int| 0 <= j < i ==> entries@[j] is Unused,
            decreases capacity - i,
        {
            entries.push(Entry::Unused);
            i += 1;
        }
        proof {
            reveal(chained);
        }
        let r = Slots {
            entries,
            next: 0,
            len: 0,
            vacated: Ghost(Seq::empty()),
            fresh: Ghost(0),
        };
        assert(r@ =~= Map::<int, S>::empty());
        r
    }

    /// The number of slots.
    pub fn capacity(&self) -> (r: usize)
        ensures
            r == self.spec_capacity(),
    {
        self.entries.len()
    }

    /// The number of occupied slots.
    pub fn len(&self) -> (r: usize)
        requires
            self.wf(),
        ensures
            r == self.spec_len(),
            r == self@.len(),
    {
        proof {
            self.lemma_wf();
        }
        self.len
    }

    /// The slot to be filled next, unless all slots are occupied.
    pub fn vacancy(&self) -> (r: Option<usize>)
        requires
            self.wf(),
        ensures
            match r {
                Some(i) => self.spec_len() < self.spec_capacity() && i == self.spec_next(),
                None => self.spec_len() == self.spec_capacity(),
            },
    {
        if self.len == self.entries.len() {
            None
        } else {
            proof {
                self.lemma_wf();
            }
            Some(self.next)
        }
    }

    /// Fills the next slot with `value`.
    pub fn insert(&mut self, value: S) -> (r: usize)
        requires
            old(self).wf(),
            old(self).spec_len() < old(self).spec_capacity(),
        ensures
            final(self).wf(),
            r == old(self).spec_next(),
            !old(self)@.contains_key(r as int),
            final(self)@ == old(self)@.insert(r as int, value),
            final(self).spec_capacity() == old(self).spec_capacity(),
            final(self).spec_len() == old(self).spec_len() + 1,
            old(self).vacated().len() == 0 ==> final(self).fresh() == old(self).fresh() + 1
                && final(self).vacated() == old(self).vacated(),
            old(self).vacated().len() > 0 ==> final(self).fresh() == old(self).fresh()
                && final(self).vacated() == old(self).vacated().drop_last(),
    {
        let capacity: usize = self.entries.len();
        proof {
            self.lemma_wf();
            if self.vacated@.len() == 0 {
                lemma_fill_fresh(self.entries@, self.vacated@, self.fresh@, value);
            } else {
                lemma_fill_vacated(self.entries@, self.vacated@, self.fresh@, value);
            }
        }
        let i: usize = self.next;
        let follow: usize = match self.entries[i] {
            Entry::Closed(follow) => follow,
            _ => i + 1,
        };
        self.entries.set(i, Entry::Occupied(value));
        self.next = follow;
        self.len = self.len + 1;
        proof {
            if self.vacated@.len() == 0 {
                self.fresh = Ghost(self.fresh@ + 1);
            } else {
                self.vacated = Ghost(self.vacated@.drop_last());
            }
        }
        i
    }

    /// Vacates slot `i`, and returns the value that it held, if any.
    pub fn remove(&mut self, i: usize) -> (r: Option<S>)
        requires
            old(self).wf(),
        ensures
            final(self).wf(),
            final(self).spec_capacity() == old(self).spec_capacity(),
            match r {
                Some(value) => {
                    &&& old(self)@.contains_key(i as int)
                    &&& value == old(self)@[i as int]
                    &&& final(self)@ == old(self)@.remove(i as int)
                    &&& final(self).vacated() == old(self).vacated().push(i as int)
                    &&& final(self).fresh() == old(self).fresh()
                },
                None => !old(self)@.contains_key(i as int) && *final(self) == *old(self),
            },
    {
        if i >= self.entries.len() {
            return None;
        }
        match self.entries[i] {
            Entry::Occupied(_) => {},
            _ => {
                return None;
            },
        }
        proof {
            self.lemma_wf();
            lemma_vacate(self.entries@, self.vacated@, self.fresh@, i as int);
        }
        let mut entry = Entry::Closed(self.next);
        self.entries.set_and_swap(i, &mut entry);
        self.next = i;
        self.len = self.len - 1;
        proof {
            self.vacated = Ghost(self.vacated@.push(i as int));
        }
        match entry {
            Entry::Occupied(value) => Some(value),
            _ => None,
        }
    }

    /// The value in slot `i`, if any.
    pub fn get(&self, i: usize) -> (r: Option<&S>)
        ensures
            match r {
                Some(value) => self@.contains_key(i as int) && *value == self@[i as int],
                None => !self@.contains_key(i as int),
            },
    {
        if i >= self.entries.len() {
            return None;
        }
        match &self.entries[i] {
            Entry::Occupied(value) => Some(value),
            _ => None,
        }
    }

    /// The value in slot `i`, if any, to be changed in place.
    pub fn get_mut(&mut self, i: usize) -> (r: Option<&mut S>)
        requires
            old(self).wf(),
        ensures
            match r {
                Some(value) => {
                    &&& old(self)@.contains_key(i as int)
                    &&& *value == old(self)@[i as int]
                    &&& final(self).wf()
                    &&& final(self)@ == old(self)@.insert(i as int, *final(value))
                    &&& final(self).spec_capacity() == old(self).spec_capacity()
                    &&& final(self).fresh() == old(self).fresh()
                    &&& final(self).vacated() == old(self).vacated()
                },
                None => !old(self)@.contains_key(i as int) && *final(self) == *old(self),
            },
    {
        if i >= self.entries.len() {
            return None;
        }
        match self.entries[i] {
            Entry::Occupied(_) => {},
            _ => {
                return None;
            },
        }
        let ghost entries = self.entries@;
        let ghost vacated = self.vacated@;
        let ghost fresh = self.fresh@;
        match &mut self.entries[i] {
            Entry::Occupied(value) => {
                proof {
                    lemma_replace(entries, vacated, fresh, i as int, *final(value));
                }
                Some(value)
            },
            _ => None,
        }
    }
}

// ---------------------------------------------------------------------------
// The table as a mathematical value
// ---------------------------------------------------------------------------

/// The contents of a table.
pub struct SlotsView<S> {
    /// The values, by their slot.
    pub values: Map<int, S>,
    /// The vacated slots, the one to be filled next at the end.
    pub vacated: Seq<int>,
    /// The number of slots ever used.
    pub fresh: int,
    /// The number of slots.
    pub capacity: nat,
}

impl<S> SlotsView<S> {
    /// A table of `capacity` slots, none of which was used.
    pub open spec fn unused(capacity: nat) -> SlotsView<S> {
        SlotsView { values: Map::empty(), vacated: Seq::empty(), fresh: 0, capacity }
    }

    /// The slots ever used are those that are occupied and those vacated.
    pub open spec fn valid(self) -> bool {
        &&& 0 <= self.fresh <= self.capacity
        &&& self.vacated.no_duplicates()
        &&& forall|i: int| #[trigger] self.vacated.contains(i) ==> 0 <= i < self.fresh
        &&& forall|i: int| #[trigger]
            self.values.contains_key(i) <==> 0 <= i < self.fresh && !self.vacated.contains(i)
        &&& self.values.dom().finite()
        &&& self.values.len() == self.fresh - self.vacated.len()
    }

    /// Whether all slots are occupied.
    pub open spec fn full(self) -> bool {
        self.values.len() == self.capacity
    }

    /// The slot to be filled next.
    pub open spec fn next(self) -> int {
        if self.vacated.len() == 0 {
            self.fresh
        } else {
            self.vacated.last()
        }
    }

    /// The table with one more value.
    pub open spec fn insert(self, value: S) -> SlotsView<S> {
        let values = self.values.insert(self.next(), value);
        if self.vacated.len() == 0 {
            SlotsView { values, fresh: self.fresh + 1, ..self }
        } else {
            SlotsView { values, vacated: self.vacated.drop_last(), ..self }
        }
    }

    /// The table without the value in slot `i`.
    pub open spec fn remove(self, i: int) -> SlotsView<S> {
        if self.values.contains_key(i) {
            SlotsView { values: self.values.remove(i), vacated: self.vacated.push(i), ..self }
        } else {
            self
        }
    }

    /// The table with another value in slot `i`.
    pub open spec fn replace(self, i: int, value: S) -> SlotsView<S> {
        SlotsView { values: self.values.insert(i, value), ..self }
    }
}

impl<S> Slots<S> {
    /// The contents of the table.
    pub open spec fn contents(self) -> SlotsView<S> {
        SlotsView {
            values: self@,
            vacated: self.vacated(),
            fresh: self.fresh(),
            capacity: self.spec_capacity(),
        }
    }

    /// A table in order has valid contents.
    pub proof fn lemma_valid(self)
        requires
            self.wf(),
        ensures
            self.contents().valid(),
    {
        self.lemma_wf();
    }
}

/// A new value gets a slot that no value has, and the other values stay where they
/// are.
pub proof fn new_value_gets_a_free_slot<S>(table: SlotsView<S>, value: S)
    requires
        table.valid(),
        !table.full(),
    ensures
        0 <= table.next() < table.capacity,
        !table.values.contains_key(table.next()),
        table.insert(value).valid(),
        table.insert(value).values == table.values.insert(table.next(), value),
{
    if table.vacated.len() > 0 {
        assert(table.vacated.contains(table.vacated.last()));
        let rest = table.vacated.drop_last();
        assert forall|i: int| #[trigger] rest.contains(i) <==> table.vacated.contains(i) && i
            != table.vacated.last() by {
            if rest.contains(i) {
                let k = rest.index_of(i);
                assert(table.vacated[k] == i);
            }
            if table.vacated.contains(i) && i != table.vacated.last() {
                let k = table.vacated.index_of(i);
                assert(rest[k] == i);
            }
        }
    }
}

/// A slot that is vacated is the next to be filled, and the values in other slots
/// stay where they are.
pub proof fn vacated_slot_is_filled_next<S>(table: SlotsView<S>, i: int)
    requires
        table.valid(),
        table.values.contains_key(i),
    ensures
        table.remove(i).valid(),
        table.remove(i).next() == i,
        !table.remove(i).full(),
        table.remove(i).values == table.values.remove(i),
{
    let pushed = table.vacated.push(i);
    assert(!table.vacated.contains(i));
    assert forall|j: int| #[trigger] pushed.contains(j) <==> table.vacated.contains(j) || j
        == i by {
        if table.vacated.contains(j) {
            let k = table.vacated.index_of(j);
            assert(pushed[k] == j);
        }
        if j == i {
            assert(pushed[table.vacated.len() as int] == j);
        }
        if pushed.contains(j) && j != i {
            let k = pushed.index_of(j);
            assert(table.vacated[k] == j);
        }
    }
}

/// The slot to be filled next is the one vacated last, or the lowest that was never used.
/// Filling it uses it up, and nothing else. A slot that is vacated and filled again leaves
/// the slots to be filled after it as they were.
pub proof fn slots_are_used_again_last_first<S>(table: SlotsView<S>, value: S, i: int)
    requires
        table.valid(),
    ensures
        table.full() <==> table.values.len() >= table.capacity,
        table.values.len() < table.capacity ==> ({
            let n = table.next();
            let more = table.insert(value);
            &&& !table.values.contains_key(n)
            &&& more.values == table.values.insert(n, value)
            &&& more.capacity == table.capacity
            &&& table.vacated.len() > 0 ==> n == table.vacated.last() && more.vacated
                == table.vacated.drop_last() && more.fresh == table.fresh
            &&& table.vacated.len() == 0 ==> n == table.fresh && more.vacated == table.vacated
                && more.fresh == table.fresh + 1
        }),
        table.values.contains_key(i) ==> ({
            let again = table.remove(i).insert(value);
            &&& table.remove(i).values == table.values.remove(i)
            &&& table.remove(i).vacated == table.vacated.push(i)
            &&& again.values == table.values.insert(i, value)
            &&& again.vacated == table.vacated && again.fresh == table.fresh && again.capacity
                == table.capacity
        }),
        !table.values.contains_key(i) ==> table.remove(i) == table,
        table.replace(i, value).values == table.values.insert(i, value),
        table.replace(i, value).vacated == table.vacated,
        table.replace(i, value).fresh == table.fresh,
        table.replace(i, value).capacity == table.capacity,
{
    if table.values.len() < table.capacity {
        new_value_gets_a_free_slot(table, value);
    }
    if table.values.contains_key(i) {
        vacated_slot_is_filled_next(table, i);
        assert(table.remove(i).vacated.drop_last() =~= table.vacated);
        assert(table.remove(i).insert(value).values =~= table.values.insert(i, value));
    }
}

} // verus!
