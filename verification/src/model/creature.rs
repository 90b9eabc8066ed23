//! Owned creature instances: a caught core plus the loadout built on it.

use crate::collections::{
    first_index, first_match, keep, lemma_first_index_at, lemma_first_index_none, refers_to,
};
use crate::data::species::{limb_has_id, SpeciesDef};
use crate::data::GameData;
use crate::model::inventory::{item_has_id, GraftCondition, GraftItem, Inventory};
use crate::text::{push_u64, str_eq};
use vstd::prelude::*;

verus! {

/// Where a core came from — flavors dialogue and the collection screen.
#[derive(Debug)]
pub enum CreatureOrigin {
    Wild,
    /// Freed from a factory war-body.
    Freed { factory_id: String },
    /// Grown in a factory the player has bound.
    Grown { factory_id: String },
    Starter,
}

impl Clone for CreatureOrigin {
    fn clone(&self) -> (r: Self)
        ensures
            r == *self,
    {
        match self {
            CreatureOrigin::Wild => CreatureOrigin::Wild,
            CreatureOrigin::Freed { factory_id } => CreatureOrigin::Freed { factory_id: factory_id.clone() },
            CreatureOrigin::Grown { factory_id } => CreatureOrigin::Grown { factory_id: factory_id.clone() },
            CreatureOrigin::Starter => CreatureOrigin::Starter,
        }
    }
}

/// One graft item assigned to one mount point on a limb.
#[derive(Debug)]
pub struct MountAssignment {
    pub limb_id: String,
    /// Index into that limb's `mounts` list.
    pub slot: usize,
    pub item_id: u64,
}

impl Clone for MountAssignment {
    fn clone(&self) -> (r: Self)
        ensures
            r == *self,
    {
        MountAssignment { limb_id: self.limb_id.clone(), slot: self.slot, item_id: self.item_id }
    }
}

/// The assignment test "it sits on mount `slot` of limb `limb_id`".
pub open spec fn assignment_is(limb_id: Seq<char>, slot: usize) -> spec_fn(MountAssignment) -> bool {
    |m: MountAssignment| m.limb_id@ == limb_id && m.slot == slot
}

/// Whether some assignment in `loadout` uses item `item_id`.
pub open spec fn loadout_uses(loadout: Seq<MountAssignment>, item_id: u64) -> bool {
    exists|i: int| 0 <= i < loadout.len() && #[trigger] loadout[i].item_id == item_id
}

/// The assignment test "its item still exists and is intact" among the
/// parts `items`.
pub open spec fn assignment_backed(items: Seq<GraftItem>) -> spec_fn(MountAssignment) -> bool {
    |m: MountAssignment|
        match first_match(items, item_has_id(m.item_id)) {
            Some(item) => item.usable(),
            None => false,
        }
}

#[derive(Debug)]
pub struct CreatureInstance {
    pub id: u64,
    pub species_id: String,
    pub nickname: Option<String>,
    /// The IEEE-754 bits of the bond level (0-10, grows with battles fought
    /// together); these rules carry it without reading it.
    pub bond_bits: u32,
    pub loadout: Vec<MountAssignment>,
    pub origin: CreatureOrigin,
}

impl Clone for CreatureInstance {
    fn clone(&self) -> (r: Self)
        ensures
            r.id == self.id,
            r.species_id == self.species_id,
            r.nickname == self.nickname,
            r.bond_bits == self.bond_bits,
            r.loadout@ == self.loadout@,
            r.origin == self.origin,
    {
        let loadout = self.loadout.clone();
        assert(loadout@ =~= self.loadout@);
        CreatureInstance {
            id: self.id,
            species_id: self.species_id.clone(),
            nickname: match &self.nickname {
                Some(n) => Some(n.clone()),
                None => None,
            },
            bond_bits: self.bond_bits,
            loadout,
            origin: self.origin.clone(),
        }
    }
}

#[derive(Debug, Clone, Copy, PartialEq, Eq, Structural)]
pub enum EquipError {
    NoSuchMount,
    NoSuchItem,
    TooHeavy,
    PowerFloor(u32),
    SlotOccupied,
    AlreadyEquipped,
}

impl CreatureInstance {
    /// The species definition this creature is an instance of.
    pub open spec fn species_spec(&self, data: &GameData) -> SpeciesDef {
        data.species@[self.species_id@]
    }

    /// The verdict of an equip of item `item_id` on mount `slot` of limb
    /// `limb_id`: the first failing check, in order, or success.
    pub open spec fn equip_check(
        &self,
        data: &GameData,
        inv: &Inventory,
        limb_id: Seq<char>,
        slot: usize,
        item_id: u64,
    ) -> Result<(), EquipError> {
        let species = self.species_spec(data);
        match first_match(species.limbs@, limb_has_id(limb_id)) {
            None => Err(EquipError::NoSuchMount),
            Some(limb) => if slot >= limb.mounts@.len() {
                Err(EquipError::NoSuchMount)
            } else {
                let mount_class = limb.mounts@[slot as int];
                match inv.item_spec(item_id) {
                    None => Err(EquipError::NoSuchItem),
                    Some(item) => if !data.graftware@.contains_key(item.def_id@) {
                        Err(EquipError::NoSuchItem)
                    } else {
                        let def = data.graftware@[item.def_id@];
                        if def.weight.order() > mount_class.order() {
                            Err(EquipError::TooHeavy)
                        } else if species.power < def.min_power {
                            Err(EquipError::PowerFloor(def.min_power))
                        } else if first_match(self.loadout@, assignment_is(limb_id, slot)) is Some {
                            Err(EquipError::SlotOccupied)
                        } else if loadout_uses(self.loadout@, item_id) {
                            Err(EquipError::AlreadyEquipped)
                        } else {
                            Ok(())
                        }
                    },
                }
            },
        }
    }

    /// Whether mount `slot` of limb `limb_id` on a creature of species
    /// `species_id` can carry item `item_id` of `inv`: the mount exists, the
    /// part is defined, no heavier than the mount and within the species'
    /// Power. What the creature already wears is not looked at.
    pub open spec fn mount_takes(
        data: &GameData,
        inv: &Inventory,
        species_id: Seq<char>,
        limb_id: Seq<char>,
        slot: usize,
        item_id: u64,
    ) -> bool {
        let species = data.species@[species_id];
        match first_match(species.limbs@, limb_has_id(limb_id)) {
            None => false,
            Some(limb) => slot < limb.mounts@.len() && match inv.item_spec(item_id) {
                None => false,
                Some(item) => {
                    &&& data.graftware@.contains_key(item.def_id@)
                    &&& data.graftware@[item.def_id@].weight.order() <= limb.mounts@[slot as int].order()
                    &&& species.power >= data.graftware@[item.def_id@].min_power
                },
            },
        }
    }

    pub fn new(id: u64, species_id: &str, origin: CreatureOrigin) -> (r: Self)
        ensures
            r.id == id,
            r.species_id@ == species_id@,
            r.nickname is None,
            r.bond_bits == 0,
            r.loadout@.len() == 0,
            r.origin == origin,
    {
        CreatureInstance {
            id,
            species_id: species_id.to_owned(),
            nickname: None,
            bond_bits: 0,
            loadout: Vec::new(),
            origin,
        }
    }

    pub fn species<'a>(&self, data: &'a GameData) -> (r: &'a SpeciesDef)
        requires
            data.species@.contains_key(self.species_id@),
        ensures
            *r == self.species_spec(data),
    {
        match data.species.get(self.species_id.as_str()) {
            Some(s) => s,
            None => vstd::pervasive::unreached(),
        }
    }

    /// The nickname, or the species name when there is none.
    pub fn display_name<'a>(&'a self, data: &'a GameData) -> (r: &'a str)
        requires
            data.species@.contains_key(self.species_id@),
        ensures
            r@ == match self.nickname {
                Some(n) => n@,
                None => self.species_spec(data).name@,
            },
    {
        match &self.nickname {
            Some(n) => n.as_str(),
            None => self.species(data).name.as_str(),
        }
    }

    /// The assignment on mount `slot` of limb `limb_id`.
    pub fn assignment_at(&self, limb_id: &str, slot: usize) -> (r: Option<&MountAssignment>)
        ensures
            refers_to(r, first_match(self.loadout@, assignment_is(limb_id@, slot))),
    {
        match self.assignment_index(limb_id, slot) {
            Some(i) => Some(&self.loadout[i]),
            None => None,
        }
    }

    fn assignment_index(&self, limb_id: &str, slot: usize) -> (r: Option<usize>)
        ensures
            r matches Some(i) ==> first_index(self.loadout@, assignment_is(limb_id@, slot)) == Some(i as int)
                && i < self.loadout@.len(),
            r is None ==> first_index(self.loadout@, assignment_is(limb_id@, slot)) is None,
    {
        let mut i: usize = 0;
        while i < self.loadout.len()
            invariant
                i <= self.loadout@.len(),
                forall|j: int| 0 <= j < i ==> !assignment_is(limb_id@, slot)(#[trigger] self.loadout@[j]),
            decreases self.loadout@.len() - i,
        {
            if self.loadout[i].slot == slot && str_eq(self.loadout[i].limb_id.as_str(), limb_id) {
                proof {
                    lemma_first_index_at(self.loadout@, assignment_is(limb_id@, slot), i as int);
                }
                return Some(i);
            }
            i = i + 1;
        }
        proof {
            lemma_first_index_none(self.loadout@, assignment_is(limb_id@, slot));
        }
        None
    }

    fn uses_item(&self, item_id: u64) -> (r: bool)
        ensures
            r == loadout_uses(self.loadout@, item_id),
    {
        let mut i: usize = 0;
        while i < self.loadout.len()
            invariant
                i <= self.loadout@.len(),
                forall|j: int| 0 <= j < i ==> #[trigger] self.loadout@[j].item_id != item_id,
            decreases self.loadout@.len() - i,
        {
            if self.loadout[i].item_id == item_id {
                return true;
            }
            i = i + 1;
        }
        false
    }

    /// Validates and applies an equip. Overdraw is legal; wrong weight class,
    /// missing mounts, an occupied slot, or an unmet Power floor are not.
    /// An equip is refused as occupied only when the creature already wears
    /// a part on that very mount, the same limb and the same slot: another
    /// taken mount of the limb does not block it. When the mount exists and
    /// can carry the part, that mount is free, and the part is worn nowhere
    /// else on the creature, the equip goes through.
    pub proof fn only_a_taken_mount_is_occupied(
        self,
        data: &GameData,
        inv: &Inventory,
        limb_id: Seq<char>,
        slot: usize,
        item_id: u64,
    )
        ensures
            self.equip_check(data, inv, limb_id, slot, item_id) == Err::<(), EquipError>(EquipError::SlotOccupied)
                ==> exists|i: int| 0 <= i < self.loadout@.len() && (#[trigger] self.loadout@[i]).limb_id@ == limb_id
                    && self.loadout@[i].slot == slot,
            CreatureInstance::mount_takes(data, inv, self.species_id@, limb_id, slot, item_id)
                && (forall|i: int| 0 <= i < self.loadout@.len() ==> (#[trigger] self.loadout@[i]).limb_id@ != limb_id
                    || self.loadout@[i].slot != slot)
                && (forall|i: int| 0 <= i < self.loadout@.len() ==> (#[trigger] self.loadout@[i]).item_id != item_id)
                ==> self.equip_check(data, inv, limb_id, slot, item_id) is Ok,
    {
        crate::collections::lemma_first_index_facts(self.loadout@, assignment_is(limb_id, slot));
        if first_match(self.loadout@, assignment_is(limb_id, slot)) is Some {
            let i = first_index(self.loadout@, assignment_is(limb_id, slot))->0;
            assert(self.loadout@[i].limb_id@ == limb_id && self.loadout@[i].slot == slot);
        }
    }

    pub fn equip(
        &mut self,
        data: &GameData,
        inv: &Inventory,
        limb_id: &str,
        slot: usize,
        item_id: u64,
    ) -> (r: Result<(), EquipError>)
        requires
            data.species@.contains_key(old(self).species_id@),
        ensures
            r == old(self).equip_check(data, inv, limb_id@, slot, item_id),
            r is Ok ==> final(self).loadout@ == old(self).loadout@.push(
                MountAssignment { limb_id: final(self).loadout@.last().limb_id, slot, item_id },
            ) && final(self).loadout@.last().limb_id@ == limb_id@,
            r is Err ==> final(self).loadout@ == old(self).loadout@,
            final(self).id == old(self).id,
            final(self).species_id == old(self).species_id,
            final(self).nickname == old(self).nickname,
            final(self).bond_bits == old(self).bond_bits,
            final(self).origin == old(self).origin,
            r == Err::<(), EquipError>(EquipError::SlotOccupied) ==> exists|i: int| 0 <= i < old(self).loadout@.len()
                && (#[trigger] old(self).loadout@[i]).limb_id@ == limb_id@ && old(self).loadout@[i].slot == slot,
    {
        proof {
            old(self).only_a_taken_mount_is_occupied(data, inv, limb_id@, slot, item_id);
        }
        let species = self.species(data);
        let limb = match species.limb(limb_id) {
            Some(l) => l,
            None => {
                return Err(EquipError::NoSuchMount);
            },
        };
        if slot >= limb.mounts.len() {
            return Err(EquipError::NoSuchMount);
        }
        let mount_class = limb.mounts[slot];
        let item = match inv.item(item_id) {
            Some(i) => i,
            None => {
                return Err(EquipError::NoSuchItem);
            },
        };
        let def = match data.graftware.get(item.def_id.as_str()) {
            Some(d) => d,
            None => {
                return Err(EquipError::NoSuchItem);
            },
        };
        if def.weight.heavier_than(mount_class) {
            return Err(EquipError::TooHeavy);
        }
        if species.power < def.min_power {
            return Err(EquipError::PowerFloor(def.min_power));
        }
        if self.assignment_index(limb_id, slot).is_some() {
            return Err(EquipError::SlotOccupied);
        }
        if self.uses_item(item_id) {
            return Err(EquipError::AlreadyEquipped);
        }
        self.loadout.push(MountAssignment { limb_id: limb_id.to_owned(), slot, item_id });
        Ok(())
    }

    /// Takes the assignment off mount `slot` of limb `limb_id`, returning its
    /// item id; the last assignment moves into its place.
    pub fn unequip(&mut self, limb_id: &str, slot: usize) -> (r: Option<u64>)
        ensures
            match first_index(old(self).loadout@, assignment_is(limb_id@, slot)) {
                Some(i) => r == Some(old(self).loadout@[i].item_id) && final(self).loadout@
                    == old(self).loadout@.update(i, old(self).loadout@.last()).drop_last(),
                None => r is None && final(self).loadout@ == old(self).loadout@,
            },
            final(self).id == old(self).id,
            final(self).species_id == old(self).species_id,
            final(self).nickname == old(self).nickname,
            final(self).bond_bits == old(self).bond_bits,
            final(self).origin == old(self).origin,
    {
        match self.assignment_index(limb_id, slot) {
            Some(idx) => {
                proof {
                    crate::collections::lemma_first_index_facts(self.loadout@, assignment_is(limb_id@, slot));
                }
                let m = self.loadout.swap_remove(idx);
                Some(m.item_id)
            },
            None => None,
        }
    }

    /// Drops assignments whose item no longer exists or is damaged
    /// (destroyed graftware comes off the creature until repaired).
    pub fn prune_loadout(&mut self, inv: &Inventory)
        ensures
            final(self).loadout@ == keep(old(self).loadout@, assignment_backed(inv.items@)),
            final(self).id == old(self).id,
            final(self).species_id == old(self).species_id,
            final(self).nickname == old(self).nickname,
            final(self).bond_bits == old(self).bond_bits,
            final(self).origin == old(self).origin,
    {
        let mut src: Vec<MountAssignment> = Vec::new();
        std::mem::swap(&mut src, &mut self.loadout);
        let ghost all = src@;
        let mut kept: Vec<MountAssignment> = Vec::new();
        for m in iter: src
            invariant
                iter.seq() == all,
                kept@ == keep(all.take(iter.index() as int), assignment_backed(inv.items@)),
        {
            assert(all.take(iter.index() + 1).drop_last() =~= all.take(iter.index() as int));
            let backed = match inv.item(m.item_id) {
                Some(item) => item.is_usable(),
                None => false,
            };
            if backed {
                kept.push(m);
            }
        }
        assert(all.take(all.len() as int) =~= all);
        self.loadout = kept;
    }
}

impl EquipError {
    pub fn message(self) -> (r: String)
        ensures
            r@ == match self {
                EquipError::NoSuchMount => "No mount point there"@,
                EquipError::NoSuchItem => "That part is missing"@,
                EquipError::TooHeavy => "Too heavy for this mount"@,
                EquipError::PowerFloor(p) => "Needs Power "@ + crate::text::nat_text(p as nat),
                EquipError::SlotOccupied => "Mount already occupied"@,
                EquipError::AlreadyEquipped => "Part already in use"@,
            },
    {
        match self {
            EquipError::NoSuchMount => "No mount point there".to_owned(),
            EquipError::NoSuchItem => "That part is missing".to_owned(),
            EquipError::TooHeavy => "Too heavy for this mount".to_owned(),
            EquipError::PowerFloor(p) => {
                let mut s = "Needs Power ".to_owned();
                push_u64(&mut s, p as u64);
                s
            },
            EquipError::SlotOccupied => "Mount already occupied".to_owned(),
            EquipError::AlreadyEquipped => "Part already in use".to_owned(),
        }
    }
}

} // verus!
