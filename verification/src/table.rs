//! The correlation table: who is waiting for which job.
//!
//! The table maps a job id to the delivery handle of the caller that
//! submitted the job and to the number of fragments that are still owed.
//! No id is ever held twice. The handle is a value of the caller's choosing
//! and is only stored and handed back.

use vstd::prelude::*;

verus! {

/// What the table knows of one job in flight.
#[derive(Debug)]
pub struct CorrelationEntry<D> {
    /// Where the job's fragments go.
    pub delivery: D,
    /// How many fragments are still owed; `None` until the first one has
    /// said how many there are.
    pub remaining: Option<i32>,
}

/// An entry together with the id it is kept under.
struct Slot<D> {
    job_id: String,
    entry: CorrelationEntry<D>,
}

/// The jobs in flight, by id.
pub struct CorrelationTable<D> {
    slots: Vec<Slot<D>>,
}

spec fn holds<D>(slots: Seq<Slot<D>>, id: Seq<char>) -> bool {
    exists|i: int| 0 <= i < slots.len() && #[trigger] slots[i].job_id@ == id
}

spec fn slot_of<D>(slots: Seq<Slot<D>>, id: Seq<char>) -> int {
    choose|i: int| 0 <= i < slots.len() && #[trigger] slots[i].job_id@ == id
}

spec fn distinct<D>(slots: Seq<Slot<D>>) -> bool {
    forall|i: int, j: int|
        0 <= i < slots.len() && 0 <= j < slots.len() && #[trigger] slots[i].job_id@
            == #[trigger] slots[j].job_id@ ==> i == j
}

spec fn as_map<D>(slots: Seq<Slot<D>>) -> Map<Seq<char>, CorrelationEntry<D>> {
    Map::new(|id: Seq<char>| holds(slots, id), |id: Seq<char>| slots[slot_of(slots, id)].entry)
}

proof fn lemma_slot_found<D>(slots: Seq<Slot<D>>, i: int)
    requires
        distinct(slots),
        0 <= i < slots.len(),
    ensures
        holds(slots, slots[i].job_id@),
        slot_of(slots, slots[i].job_id@) == i,
        as_map(slots).contains_key(slots[i].job_id@),
        as_map(slots)[slots[i].job_id@] == slots[i].entry,
{
    let id = slots[i].job_id@;
    assert(0 <= i < slots.len() && slots[i].job_id@ == id);
    let j = slot_of(slots, id);
    assert(0 <= j < slots.len() && slots[j].job_id@ == id);
}

proof fn lemma_after_push<D>(slots: Seq<Slot<D>>, slot: Slot<D>)
    requires
        distinct(slots),
        !holds(slots, slot.job_id@),
    ensures
        distinct(slots.push(slot)),
        as_map(slots.push(slot)) == as_map(slots).insert(slot.job_id@, slot.entry),
{
    let grown = slots.push(slot);
    assert forall|i: int, j: int|
        0 <= i < grown.len() && 0 <= j < grown.len() && #[trigger] grown[i].job_id@
            == #[trigger] grown[j].job_id@ implies i == j by {
        if i < slots.len() {
            assert(grown[i] == slots[i]);
        }
        if j < slots.len() {
            assert(grown[j] == slots[j]);
        }
    }
    assert forall|id: Seq<char>| holds(grown, id) <==> (holds(slots, id) || id == slot.job_id@) by {
        if holds(slots, id) {
            let i = slot_of(slots, id);
            assert(grown[i].job_id@ == id);
        }
        if id == slot.job_id@ {
            assert(grown[slots.len() as int].job_id@ == id);
        }
        if holds(grown, id) {
            let i = slot_of(grown, id);
            if i < slots.len() {
                assert(slots[i].job_id@ == id);
            }
        }
    }
    assert forall|id: Seq<char>| holds(grown, id) implies as_map(grown)[id] == as_map(
        slots,
    ).insert(slot.job_id@, slot.entry)[id] by {
        let i = slot_of(grown, id);
        lemma_slot_found(grown, i);
        if i < slots.len() {
            assert(grown[i] == slots[i]);
            lemma_slot_found(slots, i);
        }
    }
    assert(as_map(grown) =~= as_map(slots).insert(slot.job_id@, slot.entry));
}

proof fn lemma_after_remove<D>(slots: Seq<Slot<D>>, at: int)
    requires
        distinct(slots),
        0 <= at < slots.len(),
    ensures
        distinct(slots.remove(at)),
        as_map(slots.remove(at)) == as_map(slots).remove(slots[at].job_id@),
{
    let rest = slots.remove(at);
    let gone = slots[at].job_id@;
    assert forall|i: int| 0 <= i < rest.len() implies #[trigger] rest[i] == slots[if i < at {
        i
    } else {
        i + 1
    }] by {}
    assert forall|i: int, j: int|
        0 <= i < rest.len() && 0 <= j < rest.len() && #[trigger] rest[i].job_id@
            == #[trigger] rest[j].job_id@ implies i == j by {
        let a = if i < at { i } else { i + 1 };
        let b = if j < at { j } else { j + 1 };
        assert(rest[i] == slots[a] && rest[j] == slots[b]);
    }
    assert forall|id: Seq<char>| holds(rest, id) <==> (holds(slots, id) && id != gone) by {
        if holds(rest, id) {
            let i = slot_of(rest, id);
            let a = if i < at { i } else { i + 1 };
            assert(rest[i] == slots[a]);
            assert(slots[a].job_id@ == id);
        }
        if holds(slots, id) && id != gone {
            let a = slot_of(slots, id);
            let i = if a < at { a } else { a - 1 };
            assert(rest[i] == slots[a]);
            assert(rest[i].job_id@ == id);
        }
    }
    assert forall|id: Seq<char>| holds(rest, id) implies as_map(rest)[id] == as_map(slots)[id] by {
        let i = slot_of(rest, id);
        let a = if i < at { i } else { i + 1 };
        assert(rest[i] == slots[a]);
        lemma_slot_found(rest, i);
        lemma_slot_found(slots, a);
    }
    assert(as_map(rest) =~= as_map(slots).remove(gone));
}

proof fn lemma_size<D>(slots: Seq<Slot<D>>)
    requires
        distinct(slots),
    ensures
        as_map(slots).dom().finite(),
        as_map(slots).dom().len() == slots.len(),
    decreases slots.len(),
{
    if slots.len() == 0 {
        assert(as_map(slots).dom() =~= Set::<Seq<char>>::empty());
    } else {
        let init = slots.drop_last();
        let last = slots.last();
        assert forall|i: int, j: int|
            0 <= i < init.len() && 0 <= j < init.len() && #[trigger] init[i].job_id@
                == #[trigger] init[j].job_id@ implies i == j by {
            assert(init[i] == slots[i] && init[j] == slots[j]);
        }
        if holds(init, last.job_id@) {
            let i = slot_of(init, last.job_id@);
            assert(slots[i].job_id@ == slots[slots.len() - 1].job_id@);
        }
        lemma_size(init);
        lemma_after_push(init, last);
        assert(init.push(last) =~= slots);
        assert(as_map(slots).dom() =~= as_map(init).dom().insert(last.job_id@));
    }
}

impl<D> View for CorrelationTable<D> {
    type V = Map<Seq<char>, CorrelationEntry<D>>;

    closed spec fn view(&self) -> Map<Seq<char>, CorrelationEntry<D>> {
        as_map(self.slots@)
    }
}

impl<D> CorrelationTable<D> {
    /// No job id is held twice.
    #[verifier::type_invariant]
    spec fn distinct_ids(&self) -> bool {
        distinct(self.slots@)
    }

    /// A table with no job in flight.
    pub fn new() -> (table: Self)
        ensures
            table@ == Map::<Seq<char>, CorrelationEntry<D>>::empty(),
    {
        let table = CorrelationTable { slots: Vec::new() };
        assert(table@ =~= Map::<Seq<char>, CorrelationEntry<D>>::empty());
        table
    }

    fn find(&self, job_id: &String) -> (found: Option<usize>)
        ensures
            match found {
                Some(at) => at < self.slots@.len() && self.slots@[at as int].job_id@ == job_id@,
                None => !holds(self.slots@, job_id@),
            },
    {
        let mut at: usize = 0;
        while at < self.slots.len()
            invariant
                at <= self.slots@.len(),
                forall|i: int| 0 <= i < at ==> #[trigger] self.slots@[i].job_id@ != job_id@,
            decreases self.slots@.len() - at,
        {
            if self.slots[at].job_id == *job_id {
                return Some(at);
            }
            at = at + 1;
        }
        None
    }

    /// Whether a job with this id is in flight.
    pub fn contains(&self, job_id: &String) -> (held: bool)
        ensures
            held == self@.contains_key(job_id@),
    {
        let found = self.find(job_id);
        proof {
            use_type_invariant(self);
            if let Some(at) = found {
                lemma_slot_found(self.slots@, at as int);
            }
        }
        found.is_some()
    }

    /// How many jobs are in flight.
    pub fn len(&self) -> (count: usize)
        ensures
            self@.dom().finite(),
            count == self@.dom().len(),
    {
        proof {
            use_type_invariant(self);
            lemma_size(self.slots@);
        }
        self.slots.len()
    }

    /// Whether no job is in flight.
    pub fn is_empty(&self) -> (empty: bool)
        ensures
            empty == (self@ == Map::<Seq<char>, CorrelationEntry<D>>::empty()),
    {
        let empty = self.slots.len() == 0;
        proof {
            use_type_invariant(self);
            if empty {
                assert(self@ =~= Map::<Seq<char>, CorrelationEntry<D>>::empty());
            } else {
                lemma_slot_found(self.slots@, 0);
            }
        }
        empty
    }

    /// Takes a new job into the table. An id that is already in flight is
    /// refused: the table stays as it was and the entry is handed back.
    pub fn register(&mut self, job_id: String, entry: CorrelationEntry<D>) -> (refused: Option<
        CorrelationEntry<D>,
    >)
        ensures
            old(self)@.contains_key(job_id@) ==> refused == Some(entry) && final(self)@ == old(
                self,
            )@,
            !old(self)@.contains_key(job_id@) ==> refused is None && final(self)@ == old(
                self,
            )@.insert(job_id@, entry),
    {
        proof {
            use_type_invariant(&*self);
        }
        match self.find(&job_id) {
            Some(at) => {
                proof {
                    lemma_slot_found(self.slots@, at as int);
                }
                Some(entry)
            },
            None => {
                let slot = Slot { job_id, entry };
                proof {
                    lemma_after_push(self.slots@, slot);
                }
                let mut slots: Vec<Slot<D>> = Vec::new();
                core::mem::swap(&mut self.slots, &mut slots);
                slots.push(slot);
                core::mem::swap(&mut self.slots, &mut slots);
                None
            },
        }
    }

    /// Takes a job out of the table and hands back what was known of it,
    /// or `None` if no job with this id is in flight.
    pub fn remove(&mut self, job_id: &String) -> (taken: Option<CorrelationEntry<D>>)
        ensures
            final(self)@ == old(self)@.remove(job_id@),
            old(self)@.contains_key(job_id@) ==> taken == Some(old(self)@[job_id@]),
            !old(self)@.contains_key(job_id@) ==> taken is None,
    {
        proof {
            use_type_invariant(&*self);
        }
        match self.find(job_id) {
            Some(at) => {
                proof {
                    lemma_slot_found(self.slots@, at as int);
                    lemma_after_remove(self.slots@, at as int);
                }
                let mut slots: Vec<Slot<D>> = Vec::new();
                core::mem::swap(&mut self.slots, &mut slots);
                let slot = slots.remove(at);
                core::mem::swap(&mut self.slots, &mut slots);
                Some(slot.entry)
            },
            None => {
                assert(self@ =~= self@.remove(job_id@));
                None
            },
        }
    }
}

} // verus!
