//! Settlement definitions: shops and duelling rings
//! (practice and staked NPC duels).

use crate::collections::{first_match, lemma_first_index_at, lemma_first_index_none, refers_to};
use crate::text::str_eq;
use vstd::prelude::*;

verus! {

#[derive(Debug, Clone)]
pub struct ShopEntry {
    pub graft: String,
    /// Price override; defaults to the graft's base value.
    pub price: Option<i64>,
}

#[derive(Debug, Clone)]
pub struct DuelGraftFit {
    pub limb: String,
    pub slot: usize,
    pub graft: String,
}

#[derive(Debug, Clone)]
pub struct DuelUnitDef {
    pub species: String,
    pub name: Option<String>,
    pub grafts: Vec<DuelGraftFit>,
}

#[derive(Debug, Clone)]
pub struct DuelistDef {
    pub id: String,
    pub name: String,
    pub blurb: String,
    /// Ladder rank required to challenge (0 = open to anyone).
    pub rank_req: u32,
    /// Practice duels risk nothing; staked duels wager parts.
    pub practice: bool,
    pub reward_scrip: i64,
    /// Staked lane: the part this duelist puts up.
    pub stake: Option<String>,
    /// Staked lane: minimum base value of the part you must put up.
    pub min_stake_value: i64,
    pub party: Vec<DuelUnitDef>,
}

/// The duelist test "its id reads `id`".
pub open spec fn duelist_has_id(id: Seq<char>) -> spec_fn(DuelistDef) -> bool {
    |d: DuelistDef| d.id@ == id
}

#[derive(Debug, Clone)]
pub struct SettlementDef {
    pub id: String,
    pub name: String,
    pub region: String,
    pub description: String,
    pub shop: Vec<ShopEntry>,
    pub duelists: Vec<DuelistDef>,
}

impl SettlementDef {
    /// The first duelist with this id.
    pub fn duelist(&self, id: &str) -> (r: Option<&DuelistDef>)
        ensures
            refers_to(r, first_match(self.duelists@, duelist_has_id(id@))),
    {
        let mut i: usize = 0;
        while i < self.duelists.len()
            invariant
                i <= self.duelists@.len(),
                forall|j: int| 0 <= j < i ==> !duelist_has_id(id@)(#[trigger] self.duelists@[j]),
            decreases self.duelists@.len() - i,
        {
            if str_eq(self.duelists[i].id.as_str(), id) {
                proof {
                    lemma_first_index_at(self.duelists@, duelist_has_id(id@), i as int);
                }
                return Some(&self.duelists[i]);
            }
            i = i + 1;
        }
        proof {
            lemma_first_index_none(self.duelists@, duelist_has_id(id@));
        }
        None
    }
}

} // verus!
