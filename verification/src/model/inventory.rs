//! Player inventory: graftware items, salvage, and currency.

use crate::collections::{first_index, first_match, lemma_first_index_at, lemma_first_index_none, refers_to, StrMap};
use crate::data::graftware::repair_price;
use crate::data::GameData;
use vstd::prelude::*;

verus! {

#[derive(Debug, Clone, Copy, PartialEq, Eq, Structural)]
pub enum GraftCondition {
    Intact,
    /// Destroyed in battle — unusable until repaired.
    Damaged,
}

/// One physical graftware part. All owned parts live in the inventory;
/// creature loadouts reference them by id.
#[derive(Debug)]
pub struct GraftItem {
    pub id: u64,
    pub def_id: String,
    pub condition: GraftCondition,
}

impl Clone for GraftItem {
    fn clone(&self) -> (r: Self)
        ensures
            r == *self,
    {
        GraftItem { id: self.id, def_id: self.def_id.clone(), condition: self.condition }
    }
}

impl GraftItem {
    pub open spec fn usable(&self) -> bool {
        self.condition == GraftCondition::Intact
    }

    pub fn is_usable(&self) -> (r: bool)
        ensures
            r == self.usable(),
    {
        self.condition == GraftCondition::Intact
    }
}

/// The item test "its id is `id`".
pub open spec fn item_has_id(id: u64) -> spec_fn(GraftItem) -> bool {
    |i: GraftItem| i.id == id
}

/// How many of a consumable a bag holds (0 when it has no entry).
pub open spec fn bag_count(bag: Map<Seq<char>, u32>, def_id: Seq<char>) -> u32 {
    if bag.contains_key(def_id) {
        bag[def_id]
    } else {
        0
    }
}

pub struct Inventory {
    pub items: Vec<GraftItem>,
    /// Settlement scrip — the survivors' currency.
    pub scrip: i64,
    /// Spendable consumables by def id.
    pub consumables: StrMap<u32>,
}

impl Clone for Inventory {
    fn clone(&self) -> (r: Self)
        ensures
            r.items@ == self.items@,
            r.scrip == self.scrip,
            r.consumables@ == self.consumables@,
    {
        let items = self.items.clone();
        assert(items@ =~= self.items@);
        Inventory { items, scrip: self.scrip, consumables: self.consumables.clone() }
    }
}

impl Inventory {
    /// The first item with this id.
    pub open spec fn item_spec(&self, id: u64) -> Option<GraftItem> {
        first_match(self.items@, item_has_id(id))
    }

    pub fn new(scrip: i64) -> (r: Self)
        ensures
            r.items@.len() == 0,
            r.scrip == scrip,
            r.consumables@ == Map::<Seq<char>, u32>::empty(),
    {
        Inventory { items: Vec::new(), scrip, consumables: StrMap::new() }
    }

    /// Adds `count` of a consumable (an entry is made even for a count of 0).
    pub fn add_consumable(&mut self, def_id: &str, count: u32)
        requires
            bag_count(old(self).consumables@, def_id@) + count <= u32::MAX,
        ensures
            final(self).consumables@ == old(self).consumables@.insert(
                def_id@,
                (bag_count(old(self).consumables@, def_id@) + count) as u32,
            ),
            final(self).items@ == old(self).items@,
            final(self).scrip == old(self).scrip,
    {
        let have = self.consumable_count(def_id);
        self.consumables.insert(def_id.to_owned(), have + count);
    }

    pub fn consumable_count(&self, def_id: &str) -> (r: u32)
        ensures
            r == bag_count(self.consumables@, def_id@),
    {
        match self.consumables.get(def_id) {
            Some(n) => *n,
            None => 0,
        }
    }

    /// Spend one of a consumable. Returns false if none are held.
    pub fn take_consumable(&mut self, def_id: &str) -> (r: bool)
        ensures
            r == (bag_count(old(self).consumables@, def_id@) > 0),
            r && bag_count(old(self).consumables@, def_id@) == 1 ==> final(self).consumables@
                == old(self).consumables@.remove(def_id@),
            r && bag_count(old(self).consumables@, def_id@) > 1 ==> final(self).consumables@
                == old(self).consumables@.insert(
                def_id@,
                (bag_count(old(self).consumables@, def_id@) - 1) as u32,
            ),
            !r ==> final(self).consumables@ == old(self).consumables@,
            final(self).items@ == old(self).items@,
            final(self).scrip == old(self).scrip,
    {
        let n = self.consumable_count(def_id);
        if n > 0 {
            if n == 1 {
                self.consumables.remove(def_id);
            } else {
                self.consumables.insert(def_id.to_owned(), n - 1);
            }
            true
        } else {
            false
        }
    }

    /// The first item with this id.
    pub fn item(&self, id: u64) -> (r: Option<&GraftItem>)
        ensures
            refers_to(r, self.item_spec(id)),
    {
        let mut i: usize = 0;
        while i < self.items.len()
            invariant
                i <= self.items@.len(),
                forall|j: int| 0 <= j < i ==> !item_has_id(id)(#[trigger] self.items@[j]),
            decreases self.items@.len() - i,
        {
            if self.items[i].id == id {
                proof {
                    lemma_first_index_at(self.items@, item_has_id(id), i as int);
                }
                return Some(&self.items[i]);
            }
            i = i + 1;
        }
        proof {
            lemma_first_index_none(self.items@, item_has_id(id));
        }
        None
    }

    /// The first item with this id, for changing in place.
    pub fn item_mut(&mut self, id: u64) -> (r: Option<&mut GraftItem>)
        ensures
            match first_index(old(self).items@, item_has_id(id)) {
                Some(i) => r matches Some(m) && *m == old(self).items@[i] && final(self).items@
                    == old(self).items@.update(i, *final(m)),
                None => r is None && final(self).items@ == old(self).items@,
            },
            final(self).scrip == old(self).scrip,
            final(self).consumables@ == old(self).consumables@,
    {
        let mut i: usize = 0;
        while i < self.items.len()
            invariant
                i <= self.items@.len(),
                self.items@ == old(self).items@,
                self.scrip == old(self).scrip,
                self.consumables@ == old(self).consumables@,
                forall|j: int| 0 <= j < i ==> !item_has_id(id)(#[trigger] self.items@[j]),
            decreases self.items@.len() - i,
        {
            if self.items[i].id == id {
                proof {
                    lemma_first_index_at(self.items@, item_has_id(id), i as int);
                }
                return Some(&mut self.items[i]);
            }
            i = i + 1;
        }
        proof {
            lemma_first_index_none(self.items@, item_has_id(id));
        }
        None
    }

    /// Adds a part and returns its id.
    pub fn add(&mut self, id: u64, def_id: &str, condition: GraftCondition) -> (r: u64)
        ensures
            r == id,
            final(self).items@.len() == old(self).items@.len() + 1,
            final(self).items@.drop_last() == old(self).items@,
            final(self).items@.last().id == id,
            final(self).items@.last().def_id@ == def_id@,
            final(self).items@.last().condition == condition,
            final(self).scrip == old(self).scrip,
            final(self).consumables@ == old(self).consumables@,
    {
        self.items.push(GraftItem { id, def_id: def_id.to_owned(), condition });
        assert(self.items@.drop_last() =~= old(self).items@);
        id
    }

    /// Marks the first part with this id as damaged (no change when there is
    /// no such part).
    pub fn mark_damaged(&mut self, id: u64)
        ensures
            match first_index(old(self).items@, item_has_id(id)) {
                Some(i) => final(self).items@ == old(self).items@.update(
                    i,
                    GraftItem { condition: GraftCondition::Damaged, ..old(self).items@[i] },
                ),
                None => final(self).items@ == old(self).items@,
            },
            final(self).scrip == old(self).scrip,
            final(self).consumables@ == old(self).consumables@,
    {
        if let Some(item) = self.item_mut(id) {
            item.condition = GraftCondition::Damaged;
        }
    }

    /// Repairs a damaged part for scrip. Returns false if unaffordable,
    /// missing, or not damaged.
    pub fn repair(&mut self, data: &GameData, id: u64) -> (r: bool)
        ensures
            r == (match old(self).item_spec(id) {
                Some(item) => item.condition == GraftCondition::Damaged
                    && data.graftware@.contains_key(item.def_id@)
                    && old(self).scrip >= repair_price(data.graftware@[item.def_id@].value),
                None => false,
            }),
            r ==> (match first_index(old(self).items@, item_has_id(id)) {
                Some(i) => final(self).items@ == old(self).items@.update(
                    i,
                    GraftItem { condition: GraftCondition::Intact, ..old(self).items@[i] },
                ) && final(self).scrip == old(self).scrip - repair_price(
                    data.graftware@[old(self).items@[i].def_id@].value,
                ),
                None => false,
            }),
            !r ==> final(self).items@ == old(self).items@ && final(self).scrip == old(self).scrip,
            r ==> 0 <= final(self).scrip <= old(self).scrip - 5,
            r ==> exists|i: int| 0 <= i < final(self).items@.len() && (#[trigger] final(self).items@[i]).id == id
                && final(self).items@[i].condition == GraftCondition::Intact,
            final(self).consumables@ == old(self).consumables@,
    {
        let cost = match self.item(id) {
            None => {
                return false;
            },
            Some(item) => {
                if item.condition != GraftCondition::Damaged {
                    return false;
                }
                match data.graftware.get(item.def_id.as_str()) {
                    None => {
                        return false;
                    },
                    Some(def) => def.repair_cost(),
                }
            },
        };
        if self.scrip < cost {
            return false;
        }
        self.scrip = self.scrip - cost;
        if let Some(item) = self.item_mut(id) {
            item.condition = GraftCondition::Intact;
        }
        proof {
            crate::collections::lemma_first_index_facts(old(self).items@, item_has_id(id));
            if let Some(i) = first_index(old(self).items@, item_has_id(id)) {
                assert(self.items@[i].id == id && self.items@[i].condition == GraftCondition::Intact);
            }
        }
        true
    }
}

} // verus!
