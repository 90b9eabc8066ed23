//! The rider: the player's own standing, such as ring ranks won in duels and
//! the upgrades earned by silencing factories.

use crate::collections::{StrMap, StrSet};
use vstd::prelude::*;

verus! {

pub struct Rider {
    pub name: String,
    /// Duelling-ring ladder rank per settlement id.
    pub duel_ranks: StrMap<u32>,
    /// The permanent upgrades earned, by name.
    pub upgrades: StrSet,
}

impl Clone for Rider {
    fn clone(&self) -> (r: Self)
        ensures
            r.name == self.name,
            r.duel_ranks@ == self.duel_ranks@,
            r.upgrades@ == self.upgrades@,
    {
        Rider { name: self.name.clone(), duel_ranks: self.duel_ranks.clone(), upgrades: self.upgrades.clone() }
    }
}

impl Rider {
    /// A rider with no ring ranks and no upgrades yet.
    pub fn new(name: &str) -> (r: Self)
        ensures
            r.name@ == name@,
            r.duel_ranks@ == Map::<Seq<char>, u32>::empty(),
            r.upgrades@ == Set::<Seq<char>>::empty(),
    {
        Rider { name: name.to_owned(), duel_ranks: StrMap::new(), upgrades: StrSet::new() }
    }

    /// Whether the rider holds `upgrade`.
    pub fn has(&self, upgrade: &str) -> (r: bool)
        ensures
            r == self.upgrades@.contains(upgrade@),
    {
        self.upgrades.contains(upgrade)
    }

    /// Grants `upgrade`. Returns whether it is new to the rider.
    pub fn grant(&mut self, upgrade: &str) -> (r: bool)
        ensures
            r == !old(self).upgrades@.contains(upgrade@),
            final(self).upgrades@ == old(self).upgrades@.insert(upgrade@),
            final(self).name == old(self).name,
            final(self).duel_ranks@ == old(self).duel_ranks@,
    {
        if self.upgrades.contains(upgrade) {
            false
        } else {
            self.upgrades.insert(upgrade.to_owned());
            true
        }
    }
}

} // verus!
