//! Roster and traveling party: the 6-slot size budget.

use crate::collections::{
    first_index, first_match, keep, lemma_first_index_at, lemma_first_index_facts,
    lemma_first_index_none, lemma_first_index_push, lemma_keep_len, lemma_keep_occurs, lemma_keep_subseq, occurs, subseq_map,
    refers_to,
};
use crate::data::GameData;
use crate::model::creature::CreatureInstance;
use crate::text::str_eq;
use vstd::prelude::*;

verus! {

/// The creature test "its id is `id`".
pub open spec fn creature_has_id(id: u64) -> spec_fn(CreatureInstance) -> bool {
    |c: CreatureInstance| c.id == id
}

/// The creature test "it is of species `species_id`".
pub open spec fn creature_of_species(species_id: Seq<char>) -> spec_fn(CreatureInstance) -> bool {
    |c: CreatureInstance| c.species_id@ == species_id
}

/// The creature test "its id is not in `party`".
pub open spec fn not_in_party(party: Seq<u64>) -> spec_fn(CreatureInstance) -> bool {
    |c: CreatureInstance| !occurs(party, c.id)
}

/// The id test "it is `id`".
pub open spec fn id_is(id: u64) -> spec_fn(u64) -> bool {
    |p: u64| p == id
}

/// The id test "it is not `id`".
pub open spec fn id_is_not(id: u64) -> spec_fn(u64) -> bool {
    |p: u64| p != id
}

/// The creatures a list of party ids stands for, in party order; ids with no
/// creature are skipped.
pub open spec fn members(cs: Seq<CreatureInstance>, party: Seq<u64>) -> Seq<CreatureInstance>
    decreases party.len(),
{
    if party.len() == 0 {
        Seq::empty()
    } else {
        let rest = members(cs, party.drop_last());
        match first_match(cs, creature_has_id(party.last())) {
            Some(c) => rest.push(c),
            None => rest,
        }
    }
}

/// Party slots one creature takes under `data`'s balance.
pub open spec fn creature_cost(data: &GameData, c: CreatureInstance) -> int {
    data.balance.party_slot_cost.cost_of(data.species@[c.species_id@].size) as int
}

/// Slots taken by the creatures that a list of party ids stands for.
pub open spec fn party_slots(data: &GameData, cs: Seq<CreatureInstance>, party: Seq<u64>) -> int
    decreases party.len(),
{
    if party.len() == 0 {
        0
    } else {
        party_slots(data, cs, party.drop_last()) + match first_match(cs, creature_has_id(party.last())) {
            Some(c) => creature_cost(data, c),
            None => 0,
        }
    }
}

/// The creature that party id `id` stands for, if any, is of a species
/// `data` defines.
pub open spec fn id_known(data: &GameData, cs: Seq<CreatureInstance>, id: u64) -> bool {
    match first_match(cs, creature_has_id(id)) {
        Some(c) => data.species@.contains_key(c.species_id@),
        None => true,
    }
}

/// Every creature a list of party ids stands for is of a species `data`
/// defines.
pub open spec fn party_species_known(data: &GameData, cs: Seq<CreatureInstance>, party: Seq<u64>) -> bool {
    forall|k: int| 0 <= k < party.len() ==> id_known(data, cs, #[trigger] party[k])
}

/// Slots still free: the budget less what is used, never below zero.
pub open spec fn slot_room(budget: u32, used: int) -> int {
    if used <= budget {
        budget - used
    } else {
        0
    }
}

#[derive(Debug, Clone, Copy, PartialEq, Eq, Structural)]
pub enum AcquireResult {
    JoinedParty,
    SentToStorage,
}

#[derive(Debug)]
pub struct Roster {
    /// Every core the player owns, party or banked.
    pub creatures: Vec<CreatureInstance>,
    /// Ids of creatures currently traveling (and fielded in battles).
    pub party: Vec<u64>,
}

impl Roster {
    /// The traveling creatures, in party order.
    pub open spec fn members_spec(&self) -> Seq<CreatureInstance> {
        members(self.creatures@, self.party@)
    }

    /// Party slots the traveling creatures take.
    pub open spec fn slots_spec(&self, data: &GameData) -> int {
        party_slots(data, self.creatures@, self.party@)
    }

    /// Every traveling creature (the first owned creature with each party
    /// id) is of a species `data` defines.
    pub open spec fn party_known(&self, data: &GameData) -> bool {
        party_species_known(data, self.creatures@, self.party@)
    }

    /// Well-formed roster: creature ids are distinct, party ids are distinct,
    /// and every party id names an owned creature.
    pub open spec fn wf(&self) -> bool {
        &&& forall|a: int, b: int| 0 <= a < b < self.creatures@.len() ==> (#[trigger] self.creatures@[a]).id != (#[trigger] self.creatures@[b]).id
        &&& forall|a: int, b: int| 0 <= a < b < self.party@.len() ==> #[trigger] self.party@[a] != #[trigger] self.party@[b]
        &&& forall|k: int| 0 <= k < self.party@.len() ==> exists|i: int| 0 <= i < self.creatures@.len() && self.creatures@[i].id == #[trigger] self.party@[k]
    }

    pub fn new() -> (r: Self)
        ensures
            r.creatures@.len() == 0,
            r.party@.len() == 0,
            r.wf(),
    {
        Roster { creatures: Vec::new(), party: Vec::new() }
    }

    fn creature_index(&self, id: u64) -> (r: Option<usize>)
        ensures
            r matches Some(i) ==> first_index(self.creatures@, creature_has_id(id)) == Some(i as int)
                && i < self.creatures@.len(),
            r is None ==> first_index(self.creatures@, creature_has_id(id)) is None,
    {
        let mut i: usize = 0;
        while i < self.creatures.len()
            invariant
                i <= self.creatures@.len(),
                forall|j: int| 0 <= j < i ==> !creature_has_id(id)(#[trigger] self.creatures@[j]),
            decreases self.creatures@.len() - i,
        {
            if self.creatures[i].id == id {
                proof {
                    lemma_first_index_at(self.creatures@, creature_has_id(id), i as int);
                }
                return Some(i);
            }
            i = i + 1;
        }
        proof {
            lemma_first_index_none(self.creatures@, creature_has_id(id));
        }
        None
    }

    /// The first owned creature with this id.
    pub fn creature(&self, id: u64) -> (r: Option<&CreatureInstance>)
        ensures
            refers_to(r, first_match(self.creatures@, creature_has_id(id))),
    {
        match self.creature_index(id) {
            Some(i) => Some(&self.creatures[i]),
            None => None,
        }
    }

    /// The first owned creature with this id, for changing in place.
    pub fn creature_mut(&mut self, id: u64) -> (r: Option<&mut CreatureInstance>)
        ensures
            match first_index(old(self).creatures@, creature_has_id(id)) {
                Some(i) => r matches Some(m) && *m == old(self).creatures@[i] && final(self).creatures@
                    == old(self).creatures@.update(i, *final(m)),
                None => r is None && final(self).creatures@ == old(self).creatures@,
            },
            final(self).party@ == old(self).party@,
    {
        match self.creature_index(id) {
            Some(i) => Some(&mut self.creatures[i]),
            None => None,
        }
    }

    fn party_position(&self, id: u64) -> (r: Option<usize>)
        ensures
            r matches Some(i) ==> first_index(self.party@, id_is(id)) == Some(i as int) && i < self.party@.len(),
            r is None ==> first_index(self.party@, id_is(id)) is None,
    {
        let mut i: usize = 0;
        while i < self.party.len()
            invariant
                i <= self.party@.len(),
                forall|j: int| 0 <= j < i ==> !id_is(id)(#[trigger] self.party@[j]),
            decreases self.party@.len() - i,
        {
            if self.party[i] == id {
                proof {
                    lemma_first_index_at(self.party@, id_is(id), i as int);
                }
                return Some(i);
            }
            i = i + 1;
        }
        proof {
            lemma_first_index_none(self.party@, id_is(id));
        }
        None
    }

    fn party_has(&self, id: u64) -> (r: bool)
        ensures
            r == occurs(self.party@, id),
    {
        let mut i: usize = 0;
        while i < self.party.len()
            invariant
                i <= self.party@.len(),
                forall|j: int| 0 <= j < i ==> self.party@[j] != id,
            decreases self.party@.len() - i,
        {
            if self.party[i] == id {
                return true;
            }
            i = i + 1;
        }
        false
    }

    /// The traveling creatures, in party order.
    pub fn party_members(&self) -> (r: Vec<&CreatureInstance>)
        ensures
            r@.len() == self.members_spec().len(),
            forall|k: int| 0 <= k < r@.len() ==> *(#[trigger] r@[k]) == self.members_spec()[k],
    {
        let mut r: Vec<&CreatureInstance> = Vec::new();
        let mut i: usize = 0;
        while i < self.party.len()
            invariant
                i <= self.party@.len(),
                r@.len() == members(self.creatures@, self.party@.take(i as int)).len(),
                forall|k: int| 0 <= k < r@.len() ==> *(#[trigger] r@[k]) == members(self.creatures@, self.party@.take(i as int))[k],
            decreases self.party@.len() - i,
        {
            assert(self.party@.take(i + 1).drop_last() =~= self.party@.take(i as int));
            if let Some(c) = self.creature(self.party[i]) {
                r.push(c);
            }
            i = i + 1;
        }
        assert(self.party@.take(i as int) =~= self.party@);
        r
    }

    /// Creatures banked at settlements (owned but not traveling).
    pub fn stored(&self) -> (r: Vec<&CreatureInstance>)
        ensures
            r@.len() == keep(self.creatures@, not_in_party(self.party@)).len(),
            forall|k: int| 0 <= k < r@.len() ==> *(#[trigger] r@[k]) == keep(self.creatures@, not_in_party(self.party@))[k],
    {
        let ghost want = keep(self.creatures@, not_in_party(self.party@));
        let mut r: Vec<&CreatureInstance> = Vec::new();
        let mut i: usize = 0;
        while i < self.creatures.len()
            invariant
                i <= self.creatures@.len(),
                r@.len() == keep(self.creatures@.take(i as int), not_in_party(self.party@)).len(),
                forall|k: int| 0 <= k < r@.len() ==> *(#[trigger] r@[k]) == keep(self.creatures@.take(i as int), not_in_party(self.party@))[k],
            decreases self.creatures@.len() - i,
        {
            assert(self.creatures@.take(i + 1).drop_last() =~= self.creatures@.take(i as int));
            if !self.party_has(self.creatures[i].id) {
                r.push(&self.creatures[i]);
            }
            i = i + 1;
        }
        assert(self.creatures@.take(i as int) =~= self.creatures@);
        r
    }

    /// Whether the collection includes at least one core of this species.
    pub fn owns_species(&self, species_id: &str) -> (r: bool)
        ensures
            r == exists|i: int| 0 <= i < self.creatures@.len() && (#[trigger] self.creatures@[i]).species_id@ == species_id@,
    {
        let mut i: usize = 0;
        while i < self.creatures.len()
            invariant
                i <= self.creatures@.len(),
                forall|j: int| 0 <= j < i ==> (#[trigger] self.creatures@[j]).species_id@ != species_id@,
            decreases self.creatures@.len() - i,
        {
            if str_eq(self.creatures[i].species_id.as_str(), species_id) {
                return true;
            }
            i = i + 1;
        }
        false
    }

    /// How many cores of this species the collection holds.
    pub fn species_count(&self, species_id: &str) -> (r: usize)
        ensures
            r == keep(self.creatures@, creature_of_species(species_id@)).len(),
    {
        let mut n: usize = 0;
        let mut i: usize = 0;
        while i < self.creatures.len()
            invariant
                i <= self.creatures@.len(),
                n == keep(self.creatures@.take(i as int), creature_of_species(species_id@)).len(),
            decreases self.creatures@.len() - i,
        {
            assert(self.creatures@.take(i + 1).drop_last() =~= self.creatures@.take(i as int));
            proof {
                lemma_keep_len(self.creatures@.take(i as int), creature_of_species(species_id@));
            }
            if str_eq(self.creatures[i].species_id.as_str(), species_id) {
                n = n + 1;
            }
            i = i + 1;
        }
        assert(self.creatures@.take(i as int) =~= self.creatures@);
        n
    }

    /// Party slots the traveling creatures take.
    pub fn slots_used(&self, data: &GameData) -> (r: u32)
        requires
            self.party_known(data),
            self.slots_spec(data) <= u32::MAX,
        ensures
            r == self.slots_spec(data),
    {
        let mut total: u32 = 0;
        let mut i: usize = 0;
        while i < self.party.len()
            invariant
                i <= self.party@.len(),
                self.party_known(data),
                self.slots_spec(data) <= u32::MAX,
                total == party_slots(data, self.creatures@, self.party@.take(i as int)),
            decreases self.party@.len() - i,
        {
            assert(self.party@.take(i + 1).drop_last() =~= self.party@.take(i as int));
            proof {
                lemma_party_slots_prefix(data, self.creatures@, self.party@, i + 1);
            }
            match self.creature_index(self.party[i]) {
                Some(ci) => {
                    proof {
                        assert(id_known(data, self.creatures@, self.party@[i as int]));
                        lemma_first_index_facts(self.creatures@, creature_has_id(self.party@[i as int]));
                    }
                    let c = &self.creatures[ci];
                    let cost = c.species(data).size.slot_cost(&data.balance);
                    total = total + cost;
                },
                None => {},
            }
            i = i + 1;
        }
        assert(self.party@.take(i as int) =~= self.party@);
        total
    }

    /// Party slots still free under the budget.
    pub fn slots_free(&self, data: &GameData) -> (r: u32)
        requires
            self.party_known(data),
            self.slots_spec(data) <= u32::MAX,
        ensures
            r == slot_room(data.balance.party_slot_budget, self.slots_spec(data)),
    {
        data.balance.party_slot_budget.saturating_sub(self.slots_used(data))
    }

    /// Adds a creature to the roster; joins the party if its size fits the
    /// remaining slot budget, otherwise it goes to storage.
    pub fn acquire(&mut self, data: &GameData, creature: CreatureInstance) -> (r: AcquireResult)
        requires
            old(self).party_known(data),
            data.species@.contains_key(creature.species_id@),
            old(self).slots_spec(data) <= u32::MAX,
        ensures
            final(self).creatures@ == old(self).creatures@.push(creature),
            creature_cost(data, creature) <= slot_room(data.balance.party_slot_budget, old(self).slots_spec(data))
                ==> r == AcquireResult::JoinedParty && final(self).party@ == old(self).party@.push(creature.id),
            creature_cost(data, creature) > slot_room(data.balance.party_slot_budget, old(self).slots_spec(data))
                ==> r == AcquireResult::SentToStorage && final(self).party@ == old(self).party@,
            id_known(data, old(self).creatures@, creature.id) ==> final(self).party_known(data),
            old(self).wf() && (forall|i: int| 0 <= i < old(self).creatures@.len() ==> (#[trigger] old(self).creatures@[i]).id != creature.id)
                ==> final(self).wf(),
            (forall|i: int| 0 <= i < old(self).creatures@.len() ==> (#[trigger] old(self).creatures@[i]).id != creature.id)
                && !occurs(old(self).party@, creature.id) && old(self).slots_spec(data) <= data.balance.party_slot_budget
                ==> final(self).slots_spec(data) <= data.balance.party_slot_budget,
    {
        let cost = creature.species(data).size.slot_cost(&data.balance);
        let id = creature.id;
        let to_party = cost <= self.slots_free(data);
        let ghost c0 = creature;
        self.creatures.push(creature);
        proof {
            let new_id = forall|i: int| 0 <= i < old(self).creatures@.len() ==> (#[trigger] old(self).creatures@[i]).id != id;
            if new_id && !occurs(old(self).party@, id) {
                lemma_party_slots_new_creature(data, old(self).creatures@, old(self).party@, c0);
                assert forall|j: int| 0 <= j < old(self).creatures@.len() implies !creature_has_id(id)(#[trigger] old(self).creatures@[j]) by {}
                lemma_first_index_none(old(self).creatures@, creature_has_id(id));
                lemma_first_index_push(old(self).creatures@, c0, creature_has_id(id));
                lemma_party_slots_push(data, self.creatures@, old(self).party@, id);
                assert(self.creatures@[old(self).creatures@.len() as int] == c0);
            }
            assert forall|k: int| 0 <= k < old(self).party@.len() implies id_known(data, self.creatures@, #[trigger] old(self).party@[k]) by {
                assert(id_known(data, old(self).creatures@, old(self).party@[k]));
                lemma_known_push(data, old(self).creatures@, c0, old(self).party@[k]);
            }
            if id_known(data, old(self).creatures@, id) {
                lemma_known_push(data, old(self).creatures@, c0, id);
            }
            let fresh = forall|i: int| 0 <= i < old(self).creatures@.len() ==> (#[trigger] old(self).creatures@[i]).id != id;
            if old(self).wf() && fresh {
                assert forall|k: int| 0 <= k < old(self).party@.len() implies exists|i: int|
                    0 <= i < self.creatures@.len() && self.creatures@[i].id == #[trigger] old(self).party@[k] by {
                    let i = choose|i: int| 0 <= i < old(self).creatures@.len() && old(self).creatures@[i].id == old(self).party@[k];
                    assert(self.creatures@[i] == old(self).creatures@[i]);
                }
                lemma_party_slots_more_creatures(data, old(self).creatures@, old(self).party@, c0);
                assert forall|j: int| 0 <= j < old(self).creatures@.len() implies !creature_has_id(id)(#[trigger] old(self).creatures@[j]) by {}
                lemma_first_index_none(old(self).creatures@, creature_has_id(id));
                lemma_first_index_push(old(self).creatures@, c0, creature_has_id(id));
                lemma_party_slots_push(data, self.creatures@, old(self).party@, id);
                assert(self.creatures@[old(self).creatures@.len() as int] == c0);
            }
        }
        if to_party {
            self.party.push(id);
            proof {
                if id_known(data, old(self).creatures@, id) {
                    assert forall|k: int| 0 <= k < self.party@.len() implies id_known(data, self.creatures@, #[trigger] self.party@[k]) by {
                        if k < old(self).party@.len() {
                            assert(self.party@[k] == old(self).party@[k]);
                        }
                    }
                }
                let fresh = forall|i: int| 0 <= i < old(self).creatures@.len() ==> (#[trigger] old(self).creatures@[i]).id != id;
                if old(self).wf() && fresh {
                    assert forall|k: int| 0 <= k < old(self).party@.len() implies #[trigger] old(self).party@[k] != id by {
                        let i = choose|i: int| 0 <= i < old(self).creatures@.len() && old(self).creatures@[i].id == old(self).party@[k];
                    }
                    assert forall|k: int| 0 <= k < self.party@.len() implies exists|i: int|
                        0 <= i < self.creatures@.len() && self.creatures@[i].id == #[trigger] self.party@[k] by {
                        if k < old(self).party@.len() {
                            assert(self.party@[k] == old(self).party@[k]);
                            let i = choose|i: int| 0 <= i < old(self).creatures@.len() && old(self).creatures@[i].id == old(self).party@[k];
                            assert(self.creatures@[i] == old(self).creatures@[i]);
                        } else {
                            assert(self.creatures@[old(self).creatures@.len() as int].id == id);
                        }
                    }
                }
            }
            AcquireResult::JoinedParty
        } else {
            proof {
                let fresh = forall|i: int| 0 <= i < old(self).creatures@.len() ==> (#[trigger] old(self).creatures@[i]).id != id;
                if old(self).wf() && fresh {
                    assert forall|k: int| 0 <= k < self.party@.len() implies exists|i: int|
                        0 <= i < self.creatures@.len() && self.creatures@[i].id == #[trigger] self.party@[k] by {
                        let i = choose|i: int| 0 <= i < old(self).creatures@.len() && old(self).creatures@[i].id == old(self).party@[k];
                        assert(self.creatures@[i] == old(self).creatures@[i]);
                    }
                }
            }
            AcquireResult::SentToStorage
        }
    }

    /// Moves a stored creature into the party if the budget allows.
    pub fn add_to_party(&mut self, data: &GameData, id: u64) -> (r: bool)
        requires
            old(self).party_known(data),
            !occurs(old(self).party@, id) ==> id_known(data, old(self).creatures@, id),
            old(self).slots_spec(data) <= u32::MAX,
        ensures
            r == (!occurs(old(self).party@, id) && match first_match(old(self).creatures@, creature_has_id(id)) {
                Some(c) => creature_cost(data, c) <= slot_room(data.balance.party_slot_budget, old(self).slots_spec(data)),
                None => false,
            }),
            r ==> final(self).party@ == old(self).party@.push(id),
            !r ==> final(self).party@ == old(self).party@,
            final(self).creatures@ == old(self).creatures@,
            old(self).wf() ==> final(self).wf(),
            final(self).party_known(data),
            old(self).slots_spec(data) <= data.balance.party_slot_budget ==> final(self).slots_spec(data)
                <= data.balance.party_slot_budget,
    {
        if self.party_has(id) {
            return false;
        }
        let free = self.slots_free(data);
        let cost = match self.creature(id) {
            Some(c) => {
                proof {
                    lemma_first_index_facts(self.creatures@, creature_has_id(id));
                }
                c.species(data).size.slot_cost(&data.balance)
            },
            None => {
                return false;
            },
        };
        if cost > free {
            return false;
        }
        self.party.push(id);
        proof {
            assert forall|k: int| 0 <= k < self.party@.len() implies id_known(data, self.creatures@, #[trigger] self.party@[k]) by {
                if k < old(self).party@.len() {
                    assert(self.party@[k] == old(self).party@[k]);
                }
            }
            lemma_party_slots_push(data, self.creatures@, old(self).party@, id);
            lemma_first_index_facts(self.creatures@, creature_has_id(id));
            let ci = first_index(self.creatures@, creature_has_id(id))->0;
            if old(self).wf() {
                assert forall|k: int| 0 <= k < self.party@.len() implies exists|i: int|
                    0 <= i < self.creatures@.len() && self.creatures@[i].id == #[trigger] self.party@[k] by {
                    if k < old(self).party@.len() {
                        assert(self.party@[k] == old(self).party@[k]);
                        let w = choose|i: int| 0 <= i < old(self).creatures@.len() && old(self).creatures@[i].id == #[trigger] old(self).party@[k];
                        assert(self.creatures@[w].id == self.party@[k]);
                    } else {
                        assert(self.creatures@[ci].id == self.party@[k]);
                    }
                }
                assert forall|a: int, b: int| 0 <= a < b < self.party@.len() implies #[trigger] self.party@[a] != #[trigger] self.party@[b] by {
                    if b == old(self).party@.len() {
                        assert(self.party@[a] == old(self).party@[a]);
                        assert(!(old(self).party@[a] == id)) by {
                            if old(self).party@[a] == id {
                                assert(occurs(old(self).party@, id));
                            }
                        }
                    } else {
                        assert(self.party@[a] == old(self).party@[a]);
                        assert(self.party@[b] == old(self).party@[b]);
                    }
                }
            }
        }
        true
    }

    /// Takes a creature out of the party. Returns whether it was there.
    pub fn remove_from_party(&mut self, id: u64) -> (r: bool)
        ensures
            final(self).party@ == keep(old(self).party@, id_is_not(id)),
            r == occurs(old(self).party@, id),
            final(self).creatures@ == old(self).creatures@,
            old(self).wf() ==> final(self).wf(),
    {
        let mut src: Vec<u64> = Vec::new();
        std::mem::swap(&mut src, &mut self.party);
        let ghost all = src@;
        let before = src.len();
        let mut kept: Vec<u64> = Vec::new();
        for p in iter: src
            invariant
                iter.seq() == all,
                kept@ == keep(all.take(iter.index() as int), id_is_not(id)),
        {
            assert(all.take(iter.index() + 1).drop_last() =~= all.take(iter.index() as int));
            if p != id {
                kept.push(p);
            }
        }
        assert(all.take(all.len() as int) =~= all);
        self.party = kept;
        proof {
            if old(self).wf() {
                lemma_keep_subseq(all, id_is_not(id));
                let f = choose|f: spec_fn(int) -> int| #[trigger] subseq_map(all, keep(all, id_is_not(id)), f);
                assert forall|a: int, b: int| 0 <= a < b < self.party@.len() implies #[trigger] self.party@[a] != #[trigger] self.party@[b] by {
                    assert(self.party@[a] == all[f(a)]);
                    assert(self.party@[b] == all[f(b)]);
                }
                assert forall|k: int| 0 <= k < self.party@.len() implies exists|i: int|
                    0 <= i < self.creatures@.len() && self.creatures@[i].id == #[trigger] self.party@[k] by {
                    assert(self.party@[k] == all[f(k)]);
                    let kk = f(k);
                    assert(all[kk] == old(self).party@[kk]);
                    let w = choose|i: int| 0 <= i < old(self).creatures@.len() && old(self).creatures@[i].id == #[trigger] old(self).party@[kk];
                    assert(self.creatures@[w].id == self.party@[k]);
                }
            }
            lemma_keep_len(all, id_is_not(id));
            if occurs(all, id) {
                let j = choose|j: int| 0 <= j < all.len() && all[j] == id;
                assert(!id_is_not(id)(all[j]));
            }
        }
        self.party.len() != before
    }

    /// Shift a party member one slot earlier (`dir == -1`) or later (`dir == 1`).
    /// Party order is the battle line-up and the stance-key order, so the rider
    /// can arrange it. No-op at the ends. Returns whether anything moved.
    pub fn move_in_party(&mut self, id: u64, dir: i32) -> (r: bool)
        requires
            first_index(old(self).party@, id_is(id)) matches Some(i) ==> i <= i32::MAX && i32::MIN
                <= i + dir <= i32::MAX,
        ensures
            match first_index(old(self).party@, id_is(id)) {
                Some(i) => if 0 <= i + dir < old(self).party@.len() {
                    r && final(self).party@ == old(self).party@.update(i, old(self).party@[i + dir]).update(
                        i + dir,
                        old(self).party@[i],
                    )
                } else {
                    !r && final(self).party@ == old(self).party@
                },
                None => !r && final(self).party@ == old(self).party@,
            },
            final(self).creatures@ == old(self).creatures@,
            old(self).wf() ==> final(self).wf(),
    {
        let i = match self.party_position(id) {
            Some(i) => i,
            None => {
                return false;
            },
        };
        let j = i as i32 + dir;
        if j < 0 || j as usize >= self.party.len() {
            return false;
        }
        let a = self.party[i];
        let b = self.party[j as usize];
        self.party.set(i, b);
        self.party.set(j as usize, a);
        proof {
            let p = old(self).party@;
            let jj = j as int;
            assert(self.party@ == p.update(i as int, p[jj]).update(jj, p[i as int]));
            if old(self).wf() {
                assert forall|x: int, y: int| 0 <= x < y < self.party@.len() implies #[trigger] self.party@[x] != #[trigger] self.party@[y] by {
                    let sx = if x == i { jj } else if x == jj { i as int } else { x };
                    let sy = if y == i { jj } else if y == jj { i as int } else { y };
                    assert(self.party@[x] == p[sx]);
                    assert(self.party@[y] == p[sy]);
                    if sx < sy {
                        assert(p[sx] != p[sy]);
                    } else {
                        assert(p[sy] != p[sx]);
                    }
                }
                assert forall|k: int| 0 <= k < self.party@.len() implies exists|c: int|
                    0 <= c < self.creatures@.len() && self.creatures@[c].id == #[trigger] self.party@[k] by {
                    let sk = if k == i { jj } else if k == jj { i as int } else { k };
                    assert(self.party@[k] == p[sk]);
                    let w = choose|c: int| 0 <= c < old(self).creatures@.len() && old(self).creatures@[c].id == #[trigger] p[sk];
                    assert(self.creatures@[w].id == self.party@[k]);
                }
            }
        }
        true
    }
}

proof fn lemma_party_slots_push(data: &GameData, cs: Seq<CreatureInstance>, party: Seq<u64>, id: u64)
    ensures
        party_slots(data, cs, party.push(id)) == party_slots(data, cs, party) + match first_match(cs, creature_has_id(id)) {
            Some(c) => creature_cost(data, c),
            None => 0,
        },
{
    assert(party.push(id).drop_last() =~= party);
}

proof fn lemma_party_slots_nonneg(data: &GameData, cs: Seq<CreatureInstance>, party: Seq<u64>)
    ensures
        party_slots(data, cs, party) >= 0,
    decreases party.len(),
{
    if party.len() > 0 {
        lemma_party_slots_nonneg(data, cs, party.drop_last());
    }
}

/// Owning one more creature does not change what a party stands for when
/// the new creature's id is not in it.
proof fn lemma_party_slots_new_creature(data: &GameData, cs: Seq<CreatureInstance>, party: Seq<u64>, c: CreatureInstance)
    requires
        !occurs(party, c.id),
    ensures
        party_slots(data, cs.push(c), party) == party_slots(data, cs, party),
    decreases party.len(),
{
    if party.len() > 0 {
        let d = party.drop_last();
        if occurs(d, c.id) {
            let i = choose|i: int| 0 <= i < d.len() && d[i] == c.id;
            assert(party[i] == c.id);
        }
        lemma_party_slots_new_creature(data, cs, d, c);
        let id = party.last();
        assert(party[party.len() - 1] == id);
        lemma_first_index_facts(cs, creature_has_id(id));
        lemma_first_index_push(cs, c, creature_has_id(id));
    }
}

/// Owning one more creature does not change what existing party ids stand
/// for, as long as each of them already names an owned creature.
proof fn lemma_party_slots_more_creatures(
    data: &GameData,
    cs: Seq<CreatureInstance>,
    party: Seq<u64>,
    c: CreatureInstance,
)
    requires
        forall|k: int| 0 <= k < party.len() ==> exists|i: int| 0 <= i < cs.len() && cs[i].id == #[trigger] party[k],
    ensures
        party_slots(data, cs.push(c), party) == party_slots(data, cs, party),
    decreases party.len(),
{
    if party.len() > 0 {
        assert forall|k: int| 0 <= k < party.drop_last().len() implies exists|i: int| 0 <= i < cs.len() && cs[i].id == #[trigger] party.drop_last()[k] by {
            assert(party.drop_last()[k] == party[k]);
        }
        lemma_party_slots_more_creatures(data, cs, party.drop_last(), c);
        let id = party.last();
        assert(party[party.len() - 1] == id);
        let i = choose|i: int| 0 <= i < cs.len() && cs[i].id == id;
        lemma_first_index_facts(cs, creature_has_id(id));
        if first_index(cs, creature_has_id(id)) is None {
            assert(creature_has_id(id)(cs[i]));
        }
        lemma_first_index_push(cs, c, creature_has_id(id));
    }
}

/// Taking an id out of the party never takes more slots: the remaining
/// creatures use at most what the whole party did.
pub proof fn party_removal_frees_slots(data: &GameData, cs: Seq<CreatureInstance>, party: Seq<u64>, id: u64)
    ensures
        party_slots(data, cs, keep(party, id_is_not(id))) <= party_slots(data, cs, party),
{
    lemma_party_slots_keep(data, cs, party, id);
}

/// Swapping two places in the party leaves the slots it takes unchanged.
pub proof fn party_reorder_keeps_slots(data: &GameData, cs: Seq<CreatureInstance>, party: Seq<u64>, i: int, j: int)
    requires
        0 <= i < party.len(),
        0 <= j < party.len(),
    ensures
        party_slots(data, cs, party.update(i, party[j]).update(j, party[i])) == party_slots(data, cs, party),
{
    lemma_party_slots_swap(data, cs, party, i, j);
}

proof fn lemma_party_slots_keep(data: &GameData, cs: Seq<CreatureInstance>, party: Seq<u64>, id: u64)
    ensures
        party_slots(data, cs, keep(party, id_is_not(id))) <= party_slots(data, cs, party),
    decreases party.len(),
{
    if party.len() > 0 {
        lemma_party_slots_keep(data, cs, party.drop_last(), id);
        let k = keep(party.drop_last(), id_is_not(id));
        if id_is_not(id)(party.last()) {
            lemma_party_slots_push(data, cs, k, party.last());
        } else {
            match first_match(cs, creature_has_id(party.last())) {
                Some(c) => {},
                None => {},
            }
        }
    }
}

proof fn lemma_party_slots_concat(data: &GameData, cs: Seq<CreatureInstance>, a: Seq<u64>, b: Seq<u64>)
    ensures
        party_slots(data, cs, a + b) == party_slots(data, cs, a) + party_slots(data, cs, b),
    decreases b.len(),
{
    if b.len() == 0 {
        assert(a + b =~= a);
    } else {
        lemma_party_slots_concat(data, cs, a, b.drop_last());
        assert((a + b).drop_last() =~= a + b.drop_last());
        assert((a + b).last() == b.last());
    }
}

proof fn lemma_party_slots_swap(data: &GameData, cs: Seq<CreatureInstance>, p: Seq<u64>, i: int, j: int)
    requires
        0 <= i < p.len(),
        0 <= j < p.len(),
    ensures
        party_slots(data, cs, p.update(i, p[j]).update(j, p[i])) == party_slots(data, cs, p),
{
    if i != j {
        let lo = if i < j { i } else { j };
        let hi = if i < j { j } else { i };
        let q = p.update(i, p[j]).update(j, p[i]);
        let a = p.take(lo);
        let b = p.subrange(lo + 1, hi);
        let c = p.subrange(hi + 1, p.len() as int);
        assert(p =~= a + seq![p[lo]] + b + seq![p[hi]] + c);
        assert(q =~= a + seq![p[hi]] + b + seq![p[lo]] + c);
        lemma_party_slots_concat(data, cs, a + seq![p[lo]] + b + seq![p[hi]], c);
        lemma_party_slots_concat(data, cs, a + seq![p[lo]] + b, seq![p[hi]]);
        lemma_party_slots_concat(data, cs, a + seq![p[lo]], b);
        lemma_party_slots_concat(data, cs, a, seq![p[lo]]);
        lemma_party_slots_concat(data, cs, a + seq![p[hi]] + b + seq![p[lo]], c);
        lemma_party_slots_concat(data, cs, a + seq![p[hi]] + b, seq![p[lo]]);
        lemma_party_slots_concat(data, cs, a + seq![p[hi]], b);
        lemma_party_slots_concat(data, cs, a, seq![p[hi]]);
    } else {
        assert(p.update(i, p[j]).update(j, p[i]) =~= p);
    }
}

proof fn lemma_party_slots_prefix(data: &GameData, cs: Seq<CreatureInstance>, party: Seq<u64>, i: int)
    requires
        0 <= i <= party.len(),
    ensures
        party_slots(data, cs, party.take(i)) <= party_slots(data, cs, party),
    decreases party.len(),
{
    if i < party.len() {
        assert(party.drop_last().take(i) =~= party.take(i));
        lemma_party_slots_prefix(data, cs, party.drop_last(), i);
    } else {
        assert(party.take(i) =~= party);
    }
}

/// Creatures that keep their ids and species, place by place, take the same
/// slots in any party.
pub proof fn lemma_party_slots_same_cores(
    data: &GameData,
    a: Seq<CreatureInstance>,
    b: Seq<CreatureInstance>,
    party: Seq<u64>,
)
    requires
        a.len() == b.len(),
        forall|k: int| 0 <= k < a.len() ==> (#[trigger] a[k]).id == b[k].id && a[k].species_id == b[k].species_id,
    ensures
        party_slots(data, a, party) == party_slots(data, b, party),
    decreases party.len(),
{
    if party.len() > 0 {
        lemma_party_slots_same_cores(data, a, b, party.drop_last());
        let p = creature_has_id(party.last());
        assert forall|k: int| 0 <= k < a.len() implies p(#[trigger] a[k]) == p(b[k]) by {}
        crate::collections::lemma_first_index_agree(a, b, p);
        lemma_first_index_facts(a, p);
    }
}

/// A roster whose creatures keep their ids and species, place by place, and
/// whose party is unchanged stays well formed and keeps its party's species
/// known.
pub proof fn lemma_roster_same_cores(data: &GameData, before: &Roster, after: &Roster)
    requires
        before.creatures@.len() == after.creatures@.len(),
        forall|k: int| 0 <= k < before.creatures@.len() ==> (#[trigger] before.creatures@[k]).id == after.creatures@[k].id
            && before.creatures@[k].species_id == after.creatures@[k].species_id,
        before.party@ == after.party@,
    ensures
        before.wf() ==> after.wf(),
        before.party_known(data) ==> after.party_known(data),
        after.slots_spec(data) == before.slots_spec(data),
{
    lemma_party_slots_same_cores(data, before.creatures@, after.creatures@, before.party@);
    if before.wf() {
        assert forall|a: int, b: int| 0 <= a < b < after.creatures@.len() implies (#[trigger] after.creatures@[a]).id
            != (#[trigger] after.creatures@[b]).id by {
            assert(before.creatures@[a].id != before.creatures@[b].id);
        }
        assert forall|k: int| 0 <= k < after.party@.len() implies exists|i: int|
            0 <= i < after.creatures@.len() && after.creatures@[i].id == #[trigger] after.party@[k] by {
            let i = choose|i: int| 0 <= i < before.creatures@.len() && before.creatures@[i].id == before.party@[k];
            assert(after.creatures@[i].id == before.creatures@[i].id);
        }
    }
    if before.party_known(data) {
        assert forall|k: int| 0 <= k < after.party@.len() implies id_known(data, after.creatures@, #[trigger] after.party@[k]) by {
            let p = creature_has_id(after.party@[k]);
            assert forall|j: int| 0 <= j < before.creatures@.len() implies p(#[trigger] before.creatures@[j]) == p(after.creatures@[j]) by {}
            crate::collections::lemma_first_index_agree(before.creatures@, after.creatures@, p);
            lemma_first_index_facts(before.creatures@, p);
            assert(id_known(data, before.creatures@, before.party@[k]));
        }
    }
}

/// The creatures of a party whose ids all stand for known species are of
/// known species.
pub proof fn lemma_members_known(data: &GameData, cs: Seq<CreatureInstance>, party: Seq<u64>)
    requires
        party_species_known(data, cs, party),
    ensures
        forall|i: int| 0 <= i < members(cs, party).len() ==> data.species@.contains_key(#[trigger] members(cs, party)[i].species_id@),
    decreases party.len(),
{
    if party.len() > 0 {
        let d = party.drop_last();
        assert forall|k: int| 0 <= k < d.len() implies id_known(data, cs, #[trigger] d[k]) by {
            assert(d[k] == party[k]);
        }
        lemma_members_known(data, cs, d);
        assert(id_known(data, cs, party[party.len() - 1]));
        let rest = members(cs, d);
        assert forall|i: int| 0 <= i < members(cs, party).len() implies data.species@.contains_key(#[trigger] members(cs, party)[i].species_id@) by {
            if i < rest.len() {
                assert(members(cs, party)[i] == rest[i]);
            }
        }
    }
}

/// Adding a creature of a known species keeps every party id standing for
/// a known species.
pub proof fn lemma_known_push(data: &GameData, cs: Seq<CreatureInstance>, c: CreatureInstance, id: u64)
    requires
        id_known(data, cs, id),
        data.species@.contains_key(c.species_id@),
    ensures
        id_known(data, cs.push(c), id),
{
    let p = creature_has_id(id);
    lemma_first_index_push(cs, c, p);
    lemma_first_index_facts(cs, p);
    if let Some(i) = first_index(cs, p) {
        assert(cs.push(c)[i] == cs[i]);
    }
}

/// Every party member is one of the owned creatures.
pub proof fn lemma_members_owned(cs: Seq<CreatureInstance>, party: Seq<u64>, i: int)
    requires
        0 <= i < members(cs, party).len(),
    ensures
        exists|j: int| 0 <= j < cs.len() && cs[j] == members(cs, party)[i],
    decreases party.len(),
{
    let rest = members(cs, party.drop_last());
    if i < rest.len() {
        lemma_members_owned(cs, party.drop_last(), i);
        assert(members(cs, party)[i] == rest[i]);
    } else {
        lemma_first_index_facts(cs, creature_has_id(party.last()));
        let j = first_index(cs, creature_has_id(party.last()))->0;
        assert(cs[j] == members(cs, party)[i]);
    }
}

} // verus!
