//! Runtime domain model — engine-agnostic player and world state.

pub mod creature;
pub mod duel;
pub mod inventory;
pub mod journal;
pub mod party;
pub mod quest;
pub mod rider;
pub mod story;
pub mod warunit;
pub mod worldstate;

use crate::data::GameData;
use creature::{CreatureInstance, CreatureOrigin};
use inventory::{GraftCondition, GraftItem, Inventory};
use party::Roster;
use rider::Rider;
use vstd::prelude::*;

verus! {

/// The item ids that a list of creatures has equipped, creature by creature,
/// in loadout order.
pub open spec fn loadout_items(cs: Seq<CreatureInstance>) -> Seq<u64>
    decreases cs.len(),
{
    if cs.len() == 0 {
        Seq::empty()
    } else {
        loadout_items(cs.drop_last()) + cs.last().loadout@.map_values(|m: creature::MountAssignment| m.item_id)
    }
}

/// The complete persistent player profile — everything a save file holds
/// about the player (world state lives alongside in the save).
pub struct Profile {
    pub rider: Rider,
    pub roster: Roster,
    pub inventory: Inventory,
    /// Monotonic id source for creatures and items; hand ids out only
    /// through `allocate_id`.
    pub next_id: u64,
}

impl Profile {
    /// The next id the profile will hand out.
    pub open spec fn next_id(&self) -> u64 {
        self.next_id
    }

    /// Every id the profile has handed out is below the next one: no owned
    /// creature or part has an id at or above it.
    pub open spec fn ids_fresh(&self) -> bool {
        &&& forall|i: int| 0 <= i < self.roster.creatures@.len() ==> (#[trigger] self.roster.creatures@[i]).id < self.next_id()
        &&& forall|i: int| 0 <= i < self.inventory.items@.len() ==> (#[trigger] self.inventory.items@[i]).id < self.next_id()
    }

    pub fn new(rider_name: &str, starting_scrip: i64) -> (r: Self)
        ensures
            r.rider.name@ == rider_name@,
            r.rider.duel_ranks@ == Map::<Seq<char>, u32>::empty(),
            r.roster.creatures@.len() == 0,
            r.roster.party@.len() == 0,
            r.roster.wf(),
            r.inventory.items@.len() == 0,
            r.inventory.scrip == starting_scrip,
            r.inventory.consumables@ == Map::<Seq<char>, u32>::empty(),
            r.next_id() == 1,
            r.ids_fresh(),
    {
        Profile {
            rider: Rider::new(rider_name),
            roster: Roster::new(),
            inventory: Inventory::new(starting_scrip),
            next_id: 1,
        }
    }

    /// Hands out the next id.
    pub fn allocate_id(&mut self) -> (r: u64)
        requires
            old(self).next_id() < u64::MAX,
        ensures
            r == old(self).next_id(),
            final(self).next_id() == old(self).next_id() + 1,
            final(self).rider == old(self).rider,
            final(self).roster == old(self).roster,
            final(self).inventory == old(self).inventory,
    {
        let id = self.next_id;
        self.next_id = self.next_id + 1;
        id
    }

    /// Creates a creature of `species_id` with a fresh id and adds it to the
    /// roster (party if it fits, otherwise storage). Returns its id.
    pub fn spawn_creature(&mut self, data: &GameData, species_id: &str, origin: CreatureOrigin) -> (r: u64)
        requires
            old(self).next_id() < u64::MAX,
            old(self).roster.party_known(data),
            data.species@.contains_key(species_id@),
            old(self).roster.slots_spec(data) <= u32::MAX,
        ensures
            r == old(self).next_id(),
            final(self).next_id() == old(self).next_id() + 1,
            final(self).roster.creatures@.len() == old(self).roster.creatures@.len() + 1,
            final(self).roster.creatures@.drop_last() == old(self).roster.creatures@,
            final(self).roster.creatures@.last().id == r,
            final(self).roster.creatures@.last().species_id@ == species_id@,
            final(self).roster.creatures@.last().nickname is None,
            final(self).roster.creatures@.last().loadout@.len() == 0,
            final(self).roster.creatures@.last().origin == origin,
            ({
                let c = final(self).roster.creatures@.last();
                let room = party::slot_room(data.balance.party_slot_budget, old(self).roster.slots_spec(data));
                &&& party::creature_cost(data, c) <= room ==> final(self).roster.party@ == old(self).roster.party@.push(r)
                &&& party::creature_cost(data, c) > room ==> final(self).roster.party@ == old(self).roster.party@
            }),
            old(self).ids_fresh() ==> final(self).roster.party_known(data),
            final(self).inventory == old(self).inventory,
            final(self).rider == old(self).rider,
            old(self).ids_fresh() ==> final(self).ids_fresh(),
            old(self).ids_fresh() && old(self).roster.wf() ==> final(self).roster.wf(),
            old(self).ids_fresh() && old(self).roster.wf() && old(self).roster.slots_spec(data)
                <= data.balance.party_slot_budget ==> final(self).roster.slots_spec(data)
                <= data.balance.party_slot_budget,
    {
        let id = self.allocate_id();
        let creature = CreatureInstance::new(id, species_id, origin);
        let ghost c = creature;
        proof {
            if old(self).ids_fresh() {
                assert forall|j: int| 0 <= j < self.roster.creatures@.len() implies !party::creature_has_id(id)(
                    #[trigger] self.roster.creatures@[j],
                ) by {}
                crate::collections::lemma_first_index_none(self.roster.creatures@, party::creature_has_id(id));
                if old(self).roster.wf() && crate::collections::occurs(self.roster.party@, id) {
                    let k = choose|k: int| 0 <= k < self.roster.party@.len() && self.roster.party@[k] == id;
                    let i = choose|i: int| 0 <= i < self.roster.creatures@.len() && self.roster.creatures@[i].id == #[trigger] self.roster.party@[k];
                    assert(self.roster.creatures@[i].id < old(self).next_id());
                }
            }
        }
        self.roster.acquire(data, creature);
        proof {
            assert(self.roster.creatures@.drop_last() =~= old(self).roster.creatures@);
            assert(self.roster.creatures@.last() == c);
        }
        id
    }

    /// Adds a graftware part with a fresh id. Returns its id.
    pub fn grant_graft(&mut self, def_id: &str, condition: GraftCondition) -> (r: u64)
        requires
            old(self).next_id() < u64::MAX,
        ensures
            r == old(self).next_id(),
            final(self).next_id() == old(self).next_id() + 1,
            final(self).inventory.items@.len() == old(self).inventory.items@.len() + 1,
            final(self).inventory.items@.drop_last() == old(self).inventory.items@,
            final(self).inventory.items@.last().id == r,
            final(self).inventory.items@.last().def_id@ == def_id@,
            final(self).inventory.items@.last().condition == condition,
            final(self).inventory.scrip == old(self).inventory.scrip,
            final(self).inventory.consumables@ == old(self).inventory.consumables@,
            final(self).roster == old(self).roster,
            final(self).rider == old(self).rider,
            old(self).ids_fresh() ==> final(self).ids_fresh(),
    {
        let id = self.allocate_id();
        let r = self.inventory.add(id, def_id, condition);
        proof {
            if old(self).ids_fresh() {
                assert forall|i: int| 0 <= i < self.inventory.items@.len() implies (#[trigger] self.inventory.items@[i]).id < self.next_id() by {
                    if i < old(self).inventory.items@.len() {
                        assert(self.inventory.items@[i] == self.inventory.items@.drop_last()[i]);
                    }
                }
            }
        }
        r
    }

    /// Equipped item ids across the whole roster (unavailable for staking,
    /// selling, or double-equipping).
    pub fn equipped_item_ids(&self) -> (r: Vec<u64>)
        ensures
            r@ == loadout_items(self.roster.creatures@),
    {
        let mut r: Vec<u64> = Vec::new();
        let mut i: usize = 0;
        while i < self.roster.creatures.len()
            invariant
                i <= self.roster.creatures@.len(),
                r@ == loadout_items(self.roster.creatures@.take(i as int)),
            decreases self.roster.creatures@.len() - i,
        {
            assert(self.roster.creatures@.take(i + 1).drop_last() =~= self.roster.creatures@.take(i as int));
            let c = &self.roster.creatures[i];
            let ghost base = r@;
            let mut k: usize = 0;
            while k < c.loadout.len()
                invariant
                    k <= c.loadout@.len(),
                    r@ == base + c.loadout@.take(k as int).map_values(|m: creature::MountAssignment| m.item_id),
                decreases c.loadout@.len() - k,
            {
                r.push(c.loadout[k].item_id);
                assert(c.loadout@.take(k + 1).map_values(|m: creature::MountAssignment| m.item_id)
                    =~= c.loadout@.take(k as int).map_values(|m: creature::MountAssignment| m.item_id).push(c.loadout@[k as int].item_id));
                k = k + 1;
            }
            assert(c.loadout@.take(k as int) =~= c.loadout@);
            i = i + 1;
        }
        assert(self.roster.creatures@.take(i as int) =~= self.roster.creatures@);
        r
    }
}

} // verus!
