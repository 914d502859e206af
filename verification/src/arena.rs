//! A generation-checked entity arena. Entities reference one another by
//! [`EntityId`], an index plus a generation: a slot's generation grows
//! each time the slot is reused, so a reference to a despawned entity is
//! detected in constant time and can never be satisfied by a newcomer
//! that happens to land in the same slot.

use vstd::prelude::*;

verus! {

/// A handle to one entity: a slot index and the generation the slot had
/// when the entity was spawned.
#[derive(Debug, Copy, Clone, Eq, PartialEq, Hash, Structural)]
pub struct EntityId {
    pub idx: usize,
    pub gen: u64,
}

/// A slot table of entities. Each slot holds its current generation and
/// the entity value, or `None` after a despawn.
pub struct EntityArena<T> {
    pub slots: Vec<(u64, Option<T>)>,
}

/// How many of the first `n` slots are occupied.
pub open spec fn occupied_count<T>(s: Seq<(u64, Option<T>)>, n: int) -> nat
    decreases n,
{
    if n <= 0 {
        0
    } else {
        occupied_count(s, n - 1) + (if s[n - 1].1 is Some {
            1nat
        } else {
            0nat
        })
    }
}

/// Replacing one slot changes the occupied count only by that slot's
/// own change, and only for prefixes that cover it.
pub proof fn lemma_occupied_count_update<T>(s: Seq<(u64, Option<T>)>, n: int, i: int, v: (u64, Option<T>))
    requires
        0 <= i < s.len(),
        n <= s.len(),
    ensures
        occupied_count(s.update(i, v), n) == occupied_count(s, n) + (if i < n {
            (if v.1 is Some {
                1int
            } else {
                0int
            }) - (if s[i].1 is Some {
                1int
            } else {
                0int
            })
        } else {
            0int
        }),
    decreases n,
{
    if n > 0 {
        lemma_occupied_count_update(s, n - 1, i, v);
    }
}

/// Appending a slot leaves the count of any existing prefix alone.
pub proof fn lemma_occupied_count_push<T>(s: Seq<(u64, Option<T>)>, n: int, v: (u64, Option<T>))
    requires
        n <= s.len(),
    ensures
        occupied_count(s.push(v), n) == occupied_count(s, n),
    decreases n,
{
    if n > 0 {
        lemma_occupied_count_push(s, n - 1, v);
    }
}

/// Sequences that agree on a prefix have the same occupied count there.
pub proof fn lemma_occupied_count_agree<T>(s1: Seq<(u64, Option<T>)>, s2: Seq<(u64, Option<T>)>, n: int)
    requires
        n <= s1.len(),
        n <= s2.len(),
        forall|j: int| 0 <= j < n ==> s1[j] == s2[j],
    ensures
        occupied_count(s1, n) == occupied_count(s2, n),
    decreases n,
{
    if n > 0 {
        lemma_occupied_count_agree(s1, s2, n - 1);
    }
}

impl<T> EntityArena<T> {
    /// Whether `id` refers to a live entity: its slot exists, still has
    /// the handle's generation, and is occupied.
    pub open spec fn live(self, id: EntityId) -> bool {
        &&& id.idx < self.slots@.len()
        &&& self.slots@[id.idx as int].0 == id.gen
        &&& self.slots@[id.idx as int].1 is Some
    }

    /// The entity a live handle refers to.
    pub open spec fn value(self, id: EntityId) -> T {
        self.slots@[id.idx as int].1.unwrap()
    }

    /// Number of slots ever used (live or tombstoned).
    pub open spec fn slot_len(self) -> nat {
        self.slots@.len()
    }

    /// An empty arena: no entity is live.
    pub fn new() -> (a: Self)
        ensures
            a.slots@.len() == 0,
            forall|id: EntityId| !a.live(id),
    {
        EntityArena { slots: Vec::new() }
    }

    pub fn slot_count(&self) -> (n: usize)
        ensures
            n == self.slot_len(),
    {
        self.slots.len()
    }

    /// The live entity in slot `i`, if any, under its current handle.
    pub fn id_at(&self, i: usize) -> (r: Option<EntityId>)
        requires
            i < self.slot_len(),
        ensures
            match r {
                Some(id) => id.idx == i && id.gen == self.slots@[i as int].0 && self.live(id),
                None => !(self.slots@[i as int].1 is Some),
            },
    {
        if self.slots[i].1.is_some() {
            Some(EntityId { idx: i, gen: self.slots[i].0 })
        } else {
            None
        }
    }

    /// Reads a live entity; `None` detects a stale or never-issued
    /// handle.
    pub fn get(&self, id: EntityId) -> (r: Option<&T>)
        ensures
            match r {
                Some(v) => self.live(id) && *v == self.value(id),
                None => !self.live(id),
            },
    {
        if id.idx < self.slots.len() {
            if self.slots[id.idx].0 == id.gen {
                match &self.slots[id.idx].1 {
                    Some(v) => Some(v),
                    None => None,
                }
            } else {
                None
            }
        } else {
            None
        }
    }

    /// Spawns an entity into a free slot (bumping that slot's
    /// generation) or a fresh slot at the end. The handle returned is
    /// new: it was not live before, and every other handle keeps its
    /// state and value. Slot generations never decrease, so a stale
    /// handle can never come back to life.
    pub fn spawn(&mut self, v: T) -> (id: EntityId)
        ensures
            final(self).live(id),
            final(self).value(id) == v,
            !old(self).live(id),
            forall|o: EntityId| o != id ==> final(self).live(o) == old(self).live(o),
            forall|o: EntityId|
                o != id && old(self).live(o) ==> final(self).value(o) == old(self).value(o),
            old(self).slot_len() <= final(self).slot_len(),
            forall|i: int|
                0 <= i < old(self).slot_len() ==> old(self).slots@[i].0
                    <= #[trigger] final(self).slots@[i].0,
            id.idx < old(self).slot_len() ==> id.gen > old(self).slots@[id.idx as int].0 && !(
            old(self).slots@[id.idx as int].1 is Some),
            id.idx >= old(self).slot_len() ==> id.idx == old(self).slot_len()
                && final(self).slot_len() == old(self).slot_len() + 1,
            id.idx < old(self).slot_len() ==> final(self).slot_len() == old(self).slot_len(),
            occupied_count(final(self).slots@, final(self).slot_len() as int) == occupied_count(
                old(self).slots@,
                old(self).slot_len() as int,
            ) + 1,
            forall|j: int|
                0 <= j < old(self).slot_len() && j != id.idx ==> final(self).slots@[j] == old(self).slots@[j],
            final(self).slots@[id.idx as int] == (id.gen, Some(v)),
    {
        let mut i: usize = 0;
        while i < self.slots.len()
            invariant
                *self == *old(self),
                i <= self.slots@.len(),
            decreases self.slots@.len() - i,
        {
            if self.slots[i].1.is_none() && self.slots[i].0 < u64::MAX {
                let g = self.slots[i].0;
                proof {
                    lemma_occupied_count_update(
                        self.slots@,
                        self.slots@.len() as int,
                        i as int,
                        ((g + 1) as u64, Some(v)),
                    );
                }
                self.slots.set(i, (g + 1, Some(v)));
                let id = EntityId { idx: i, gen: g + 1 };
                return id;
            }
            i = i + 1;
        }
        let idx = self.slots.len();
        proof {
            lemma_occupied_count_push(self.slots@, self.slots@.len() as int, (0u64, Some(v)));
        }
        self.slots.push((0, Some(v)));
        EntityId { idx, gen: 0 }
    }

    /// Despawns the entity the handle refers to; a stale handle is a
    /// no-op. Either way the handle is dead afterwards, and every other
    /// handle keeps its state and value.
    pub fn remove(&mut self, id: EntityId)
        ensures
            !final(self).live(id),
            forall|o: EntityId| o != id ==> final(self).live(o) == old(self).live(o),
            forall|o: EntityId|
                o != id && old(self).live(o) ==> final(self).value(o) == old(self).value(o),
            final(self).slot_len() == old(self).slot_len(),
            forall|i: int|
                0 <= i < old(self).slot_len() ==> old(self).slots@[i].0
                    == #[trigger] final(self).slots@[i].0,
            forall|j: int|
                0 <= j < old(self).slot_len() && j != id.idx ==> final(self).slots@[j] == old(self).slots@[j],
            id.idx < old(self).slot_len() && old(self).slots@[id.idx as int].0 == id.gen
                ==> final(self).slots@[id.idx as int] == (id.gen, None::<T>),
            !(id.idx < old(self).slot_len() && old(self).slots@[id.idx as int].0 == id.gen)
                ==> *final(self) == *old(self),
    {
        if id.idx < self.slots.len() {
            if self.slots[id.idx].0 == id.gen {
                let g = self.slots[id.idx].0;
                self.slots.set(id.idx, (g, None));
            }
        }
    }

    /// Replaces the value of a live entity, keeping its handle.
    pub fn set_value(&mut self, id: EntityId, v: T)
        requires
            old(self).live(id),
        ensures
            final(self).live(id),
            final(self).value(id) == v,
            forall|o: EntityId| o != id ==> final(self).live(o) == old(self).live(o),
            forall|o: EntityId|
                o != id && old(self).live(o) ==> final(self).value(o) == old(self).value(o),
            final(self).slot_len() == old(self).slot_len(),
            forall|i: int|
                0 <= i < old(self).slot_len() ==> old(self).slots@[i].0
                    == #[trigger] final(self).slots@[i].0,
            forall|j: int|
                0 <= j < old(self).slot_len() && j != id.idx ==> final(self).slots@[j] == old(self).slots@[j],
            final(self).slots@[id.idx as int] == (id.gen, Some(v)),
    {
        self.slots.set(id.idx, (id.gen, Some(v)));
    }

    /// Counts the live entities: exactly the occupied slots.
    pub fn live_count(&self) -> (n: usize)
        ensures
            n == occupied_count(self.slots@, self.slots@.len() as int),
            n <= self.slot_len(),
    {
        let mut n: usize = 0;
        let mut i: usize = 0;
        while i < self.slots.len()
            invariant
                i <= self.slots@.len(),
                n <= i,
                n == occupied_count(self.slots@, i as int),
            decreases self.slots@.len() - i,
        {
            if self.slots[i].1.is_some() {
                n = n + 1;
            }
            i = i + 1;
        }
        n
    }
}

} // verus!
