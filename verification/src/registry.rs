//! The identity registry: owns values under generation-checked identities.
//!
//! Identities come from a generational slot table. The values themselves lie
//! densely in a vector; the slot table maps each live identity to the place of
//! its value in that vector.

use vstd::prelude::*;
use crate::error::Error;
use crate::identity::{lemma_bits_join, lemma_bits_split, NodeId};
use crate::slots::{key_index, key_version, slot_entries, slot_versions, SlotTable};

verus! {

/// The most values a registry holds at one time: the slot table takes no
/// more.
pub const MAX_LIVE: usize = 0xffff_fffe;

/// A value together with the identity it is held under.
struct Entry<T> {
    id: NodeId,
    value: T,
}

/// Owns values under stable identities. An identity names its value until the
/// value is deallocated, and a retired identity names nothing ever after.
pub struct IdentityRegistry<T> {
    slots: SlotTable,
    items: Vec<Entry<T>>,
    retired: Ghost<Set<NodeId>>,
}

/// The retired identities once `id` has been deallocated. `id` joins them,
/// except that an identity of the last generation exhausts its index: the
/// generation counter then starts over, and nothing can be promised any more
/// of the identities retired there.
pub open spec fn retire(retired: Set<NodeId>, id: NodeId) -> Set<NodeId> {
    if id.generation < u32::MAX {
        retired.insert(id)
    } else {
        retired.filter(|other: NodeId| other.index != id.index)
    }
}

/// Making a version odd never lowers it, and leaves an odd one alone.
proof fn lemma_odd_version(version: u32)
    ensures
        (version | 1) % 2 == 1,
        (version | 1) >= version,
        version % 2 == 1 ==> (version | 1) == version,
{
    assert((version | 1) % 2 == 1) by (bit_vector);
    assert((version | 1) >= version) by (bit_vector);
    assert(version % 2 == 1 ==> (version | 1) == version) by (bit_vector);
}

/// A key word is determined by the index and version it carries.
proof fn lemma_key_halves(a: u64, b: u64)
    requires
        key_index(a) == key_index(b),
        key_version(a) == key_version(b),
    ensures
        a == b,
{
    lemma_bits_split(a);
    lemma_bits_split(b);
}

impl<T> View for IdentityRegistry<T> {
    type V = Map<NodeId, T>;

    /// The live identities, each with the value it names.
    closed spec fn view(&self) -> Map<NodeId, T> {
        Map::new(
            |id: NodeId| slot_entries(self.slots).dom().contains(id.bits()),
            |id: NodeId| self.items@[slot_entries(self.slots)[id.bits()] as int].value,
        )
    }
}

impl<T> IdentityRegistry<T> {
    /// The identities that were deallocated and will never be issued again.
    pub closed spec fn retired(&self) -> Set<NodeId> {
        self.retired@
    }

    /// The registry's invariant. Every constructor establishes it and every
    /// method keeps it.
    pub closed spec fn wf(&self) -> bool {
        let entries = slot_entries(self.slots);
        let versions = slot_versions(self.slots);
        &&& entries.dom().finite()
        &&& entries.dom().len() == self.items@.len()
        &&& self@.dom().finite()
        &&& self@.dom().len() == self.items@.len()
        &&& forall|key: u64| #[trigger]
            entries.dom().contains(key) ==> {
                &&& entries[key] < self.items@.len()
                &&& self.items@[entries[key] as int].id.bits() == key
                &&& key_version(key) % 2 == 1
                &&& key_index(key) < versions.len()
                &&& versions[key_index(key) as int] == key_version(key)
            }
        &&& forall|i: int|
            0 <= i < self.items@.len() ==> {
                &&& entries.dom().contains((#[trigger] self.items@[i]).id.bits())
                &&& entries[self.items@[i].id.bits()] == i
            }
        &&& forall|id: NodeId| #[trigger]
            self.retired@.contains(id) ==> {
                &&& id.index < versions.len()
                &&& id.generation < versions[id.index as int]
            }
    }

    /// In a well-formed registry every live identity has an odd generation,
    /// no retired identity is live, and the live identities are finitely many.
    pub proof fn lemma_live_identities(&self)
        requires
            self.wf(),
        ensures
            self@.dom().finite(),
            forall|id: NodeId| #[trigger] self@.dom().contains(id) ==> id.is_odd(),
            forall|id: NodeId| #[trigger]
                self.retired().contains(id) ==> !self@.dom().contains(id),
    {
        let entries = slot_entries(self.slots);
        assert forall|id: NodeId| #[trigger] self@.dom().contains(id) implies id.is_odd() by {
            assert(entries.dom().contains(id.bits()));
            lemma_bits_join(id.index, id.generation);
        }
        assert forall|id: NodeId| #[trigger]
            self.retired().contains(id) implies !self@.dom().contains(id) by {
            if self@.dom().contains(id) {
                assert(entries.dom().contains(id.bits()));
                lemma_bits_join(id.index, id.generation);
            }
        }
    }

    /// A registry that holds nothing and has retired nothing.
    pub fn new() -> (registry: Self)
        ensures
            registry.wf(),
            registry@ == Map::<NodeId, T>::empty(),
            registry.retired() == Set::<NodeId>::empty(),
    {
        let registry = IdentityRegistry {
            slots: SlotTable::new(),
            items: Vec::new(),
            retired: Ghost(Set::empty()),
        };
        assert(registry@ =~= Map::<NodeId, T>::empty());
        registry
    }

    /// Whether `id` is fresh for this registry: neither live nor retired, and
    /// of a later generation than every identity the registry knows at its
    /// index.
    pub open spec fn is_fresh(&self, id: NodeId) -> bool {
        &&& id.is_odd()
        &&& !self@.dom().contains(id)
        &&& !self.retired().contains(id)
        &&& forall|other: NodeId| #[trigger]
            self@.dom().contains(other) && other.index == id.index ==> other.generation
                < id.generation
        &&& forall|other: NodeId| #[trigger]
            self.retired().contains(other) && other.index == id.index ==> other.generation
                < id.generation
    }

    /// Issues a fresh identity and stores under it the value that `make`
    /// builds from the identity. This is how a value comes to carry its own
    /// identity.
    pub fn allocate_with<F: FnOnce(NodeId) -> T>(&mut self, make: F) -> (id: NodeId)
        requires
            old(self).wf(),
            old(self)@.dom().len() < MAX_LIVE,
            forall|id: NodeId| make.requires((id,)),
        ensures
            final(self).wf(),
            old(self).is_fresh(id),
            final(self)@.dom().contains(id),
            make.ensures((id,), final(self)@[id]),
            final(self)@ == old(self)@.insert(id, final(self)@[id]),
            final(self).retired() == old(self).retired(),
    {
        let ghost before = *self;
        let ghost entries = slot_entries(self.slots);
        let ghost versions = slot_versions(self.slots);
        let place: usize = self.items.len();
        let key: u64 = self.slots.insert(place);
        let id = NodeId::from_bits(key);
        let value = make(id);
        self.items.push(Entry { id, value });
        proof {
            let entries1 = slot_entries(self.slots);
            let versions1 = slot_versions(self.slots);
            lemma_bits_split(key);
            if key_index(key) < versions.len() {
                lemma_odd_version(versions[key_index(key) as int]);
            }
            // No live key shares the new key's slot.
            assert forall|other: u64| #[trigger]
                entries.dom().contains(other) implies key_index(other) != key_index(key) by {
                if key_index(other) == key_index(key) {
                    lemma_odd_version(key_version(other));
                    lemma_key_halves(other, key);
                }
            }
            assert forall|other: u64| #[trigger] entries1.dom().contains(other) implies {
                &&& entries1[other] < self.items@.len()
                &&& self.items@[entries1[other] as int].id.bits() == other
                &&& key_version(other) % 2 == 1
                &&& key_index(other) < versions1.len()
                &&& versions1[key_index(other) as int] == key_version(other)
            } by {
                if other != key {
                    assert(entries.dom().contains(other));
                }
            }
            assert forall|i: int| 0 <= i < self.items@.len() implies {
                &&& entries1.dom().contains((#[trigger] self.items@[i]).id.bits())
                &&& entries1[self.items@[i].id.bits()] == i
            } by {
                if i < place {
                    assert(self.items@[i] == before.items@[i]);
                }
            }
            assert forall|other: NodeId| #[trigger] self.retired@.contains(other) implies {
                &&& other.index < versions1.len()
                &&& other.generation < versions1[other.index as int]
            } by {
                assert(before.retired@.contains(other));
            }
            assert forall|other: NodeId| #[trigger]
                before@.dom().contains(other) && other.index == id.index implies other.generation
                < id.generation by {
                lemma_bits_join(other.index, other.generation);
                assert(entries.dom().contains(other.bits()));
            }
            assert(self@ =~= before@.insert(id, value)) by {
                assert forall|other: NodeId| #[trigger]
                    self@.dom().contains(other) <==> before@.insert(id, value).dom().contains(
                        other,
                    ) by {
                    if other.bits() == key {
                        lemma_bits_join(other.index, other.generation);
                    }
                }
            }
        }
        id
    }

    /// Stores `value` under a fresh identity and returns the identity.
    pub fn allocate(&mut self, value: T) -> (id: NodeId)
        requires
            old(self).wf(),
            old(self)@.dom().len() < MAX_LIVE,
        ensures
            final(self).wf(),
            old(self).is_fresh(id),
            final(self)@ == old(self)@.insert(id, value),
            final(self).retired() == old(self).retired(),
    {
        self.allocate_with(|id: NodeId| -> (made: T)
            ensures
                made == value,
            { value })
    }

    /// Whether `after` is this registry with `value` in place of the value
    /// at `place`.
    spec fn holds_instead(&self, after: Self, place: int, value: T) -> bool {
        &&& after.slots == self.slots
        &&& after.retired == self.retired
        &&& 0 <= place < self.items@.len()
        &&& after.items@ == self.items@.update(
            place,
            Entry { id: self.items@[place].id, value },
        )
    }

    /// Putting another value in a place changes what that place's identity
    /// names, and nothing else.
    proof fn lemma_holds_instead(&self, after: Self, place: int, value: T)
        requires
            self.wf(),
            self.holds_instead(after, place, value),
        ensures
            after.wf(),
            after@ == self@.insert(self.items@[place].id, value),
    {
        let entries = slot_entries(self.slots);
        let id = self.items@[place].id;
        assert(self.items@[place].id.bits() == id.bits());
        assert(entries.dom().contains(id.bits()));
        assert forall|other: NodeId| #[trigger] after@.dom().contains(other) implies after@[other]
            == self@.insert(id, value)[other] by {
            assert(entries.dom().contains(other.bits()));
            if other != id {
                lemma_bits_join(other.index, other.generation);
                lemma_bits_join(id.index, id.generation);
                assert(entries[other.bits()] != place);
            }
        }
        assert(after@ =~= self@.insert(id, value));
        assert forall|i: int| 0 <= i < after.items@.len() implies {
            &&& entries.dom().contains((#[trigger] after.items@[i]).id.bits())
            &&& entries[after.items@[i].id.bits()] == i
        } by {
            assert(self.items@[i].id == after.items@[i].id);
        }
    }

    /// Where the value under `id` lies, if `id` is live.
    fn locate(&self, id: NodeId) -> (place: Option<usize>)
        requires
            self.wf(),
        ensures
            place is Some <==> self@.dom().contains(id),
            place matches Some(i) ==> {
                &&& i < self.items@.len()
                &&& self.items@[i as int].id == id
                &&& self.items@[i as int].value == self@[id]
                &&& slot_entries(self.slots).dom().contains(id.bits())
                &&& slot_entries(self.slots)[id.bits()] == i
                &&& id.is_odd()
            },
    {
        proof {
            lemma_bits_join(id.index, id.generation);
        }
        if id.generation % 2 == 0 {
            return None;
        }
        let place = self.slots.get(id.to_bits());
        proof {
            if let Some(i) = place {
                let held = self.items@[i as int].id;
                lemma_bits_join(held.index, held.generation);
            }
        }
        place
    }

    /// Whether `id` names a value of this registry.
    pub fn contains(&self, id: NodeId) -> (found: bool)
        requires
            self.wf(),
        ensures
            found == self@.dom().contains(id),
    {
        self.locate(id).is_some()
    }

    /// The value that `id` names.
    pub fn resolve(&self, id: NodeId) -> (found: Result<&T, Error>)
        requires
            self.wf(),
        ensures
            self@.dom().contains(id) ==> found == Ok::<&T, Error>(&self@[id]),
            !self@.dom().contains(id) ==> found == Err::<&T, Error>(Error::StaleIdentity),
    {
        match self.locate(id) {
            Some(place) => Ok(&self.items[place].value),
            None => Err(Error::StaleIdentity),
        }
    }

    /// The value that `id` names, to change in place. Whatever is written
    /// there is the value that `id` names afterwards; nothing else changes.
    pub fn resolve_mut(&mut self, id: NodeId) -> (found: Result<&mut T, Error>)
        requires
            old(self).wf(),
        ensures
            final(self).wf(),
            final(self).retired() == old(self).retired(),
            found is Ok <==> old(self)@.dom().contains(id),
            found matches Ok(value) ==> {
                &&& *value == old(self)@[id]
                &&& final(self)@ == old(self)@.insert(id, *final(value))
            },
            found matches Err(error) ==> {
                &&& error == Error::StaleIdentity
                &&& final(self)@ == old(self)@
            },
    {
        match self.locate(id) {
            Some(place) => {
                proof {
                    let before = *self;
                    assert forall|after: Self|
                        before.holds_instead(
                            after,
                            place as int,
                            after.items@[place as int].value,
                        ) implies #[trigger] after.wf() && after@ == before@.insert(
                        id,
                        after.items@[place as int].value,
                    ) by {
                        before.lemma_holds_instead(
                            after,
                            place as int,
                            after.items@[place as int].value,
                        );
                    }
                }
                Ok(&mut self.items[place].value)
            },
            None => Err(Error::StaleIdentity),
        }
    }

    /// Takes the value that `id` names out of the registry and retires the
    /// identity.
    pub fn deallocate(&mut self, id: NodeId) -> (removed: Result<T, Error>)
        requires
            old(self).wf(),
        ensures
            final(self).wf(),
            old(self)@.dom().contains(id) ==> {
                &&& removed == Ok::<T, Error>(old(self)@[id])
                &&& final(self)@ == old(self)@.remove(id)
                &&& final(self).retired() == retire(old(self).retired(), id)
            },
            !old(self)@.dom().contains(id) ==> {
                &&& removed == Err::<T, Error>(Error::StaleIdentity)
                &&& final(self)@ == old(self)@
                &&& final(self).retired() == old(self).retired()
            },
    {
        let place: usize = match self.locate(id) {
            Some(place) => place,
            None => {
                return Err(Error::StaleIdentity);
            },
        };
        let ghost before = *self;
        let ghost entries = slot_entries(self.slots);
        let ghost versions = slot_versions(self.slots);
        let key: u64 = id.to_bits();
        let last: usize = self.items.len() - 1;
        let moved: NodeId = self.items[last].id;
        let _ = self.slots.remove(key);
        if place != last {
            proof {
                assert(entries.dom().contains(moved.bits()));
                assert(moved.bits() != key);
            }
            match self.slots.get_mut(moved.to_bits()) {
                Some(slot) => {
                    *slot = place;
                },
                None => {},
            }
        }
        let entry = self.items.swap_remove(place);
        proof {
            self.retired@ = retire(self.retired@, id);
            let entries1 = slot_entries(self.slots);
            let versions1 = slot_versions(self.slots);
            lemma_bits_join(id.index, id.generation);
            assert(entries.dom().contains(moved.bits()));
            assert(entries[moved.bits()] == last);
            assert(entries1.dom() =~= entries.dom().remove(key));
            assert forall|other: u64| #[trigger] entries1.dom().contains(other) implies {
                &&& entries1[other] < self.items@.len()
                &&& self.items@[entries1[other] as int].id.bits() == other
                &&& key_version(other) % 2 == 1
                &&& key_index(other) < versions1.len()
                &&& versions1[key_index(other) as int] == key_version(other)
            } by {
                assert(entries.dom().contains(other));
                if key_index(other) == key_index(key) {
                    lemma_key_halves(other, key);
                }
                if other != moved.bits() {
                    assert(entries1[other] == entries[other]);
                    if entries[other] == last {
                        assert(before.items@[last as int].id.bits() == other);
                    }
                }
            }
            assert forall|i: int| 0 <= i < self.items@.len() implies {
                &&& entries1.dom().contains((#[trigger] self.items@[i]).id.bits())
                &&& entries1[self.items@[i].id.bits()] == i
            } by {
                if i == place {
                    assert(self.items@[i] == before.items@[last as int]);
                } else {
                    assert(self.items@[i] == before.items@[i]);
                    assert(entries[before.items@[i].id.bits()] == i);
                }
            }
            assert forall|other: NodeId| #[trigger] self.retired@.contains(other) implies {
                &&& other.index < versions1.len()
                &&& other.generation < versions1[other.index as int]
            } by {
                if other != id {
                    assert(before.retired@.contains(other));
                }
            }
            assert(self@ =~= before@.remove(id)) by {
                assert forall|other: NodeId| #[trigger]
                    self@.dom().contains(other) <==> before@.remove(id).dom().contains(other) by {
                    if other.bits() == key {
                        lemma_bits_join(other.index, other.generation);
                    }
                }
                let left = before@.remove(id);
                assert forall|other: NodeId| #[trigger]
                    self@.dom().contains(other) implies self@[other] == left[other] by {
                    assert(entries.dom().contains(other.bits()));
                    assert(entries1.dom().contains(other.bits()));
                }
            }
        }
        Ok(entry.value)
    }

    /// The live identities, each once, in no particular order.
    pub fn ids(&self) -> (ids: Vec<NodeId>)
        requires
            self.wf(),
        ensures
            ids@.no_duplicates(),
            ids@.len() == self@.dom().len(),
            forall|id: NodeId| ids@.contains(id) <==> self@.dom().contains(id),
    {
        let mut ids: Vec<NodeId> = Vec::new();
        let mut i: usize = 0;
        while i < self.items.len()
            invariant
                i <= self.items@.len(),
                ids@.len() == i,
                forall|j: int| 0 <= j < i ==> (#[trigger] ids@[j]) == self.items@[j].id,
            decreases self.items@.len() - i,
        {
            ids.push(self.items[i].id);
            i = i + 1;
        }
        proof {
            let entries = slot_entries(self.slots);
            assert forall|j: int, k: int| 0 <= j < k < ids@.len() implies ids@[j] != ids@[k] by {
                assert(entries[self.items@[j].id.bits()] == j);
                assert(entries[self.items@[k].id.bits()] == k);
            }
            assert forall|id: NodeId| ids@.contains(id) <==> self@.dom().contains(id) by {
                if ids@.contains(id) {
                    let j = choose|j: int| 0 <= j < ids@.len() && ids@[j] == id;
                    assert(entries.dom().contains(self.items@[j].id.bits()));
                }
                if self@.dom().contains(id) {
                    let j = entries[id.bits()] as int;
                    lemma_bits_join(id.index, id.generation);
                    lemma_bits_join(self.items@[j].id.index, self.items@[j].id.generation);
                    assert(ids@[j] == id);
                }
            }
        }
        ids
    }

    /// How many values the registry holds.
    pub fn len(&self) -> (n: usize)
        requires
            self.wf(),
        ensures
            n == self@.dom().len(),
    {
        self.items.len()
    }
}

} // verus!
