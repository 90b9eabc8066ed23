//! Species (chassis) definitions.
//!
//! A species is a chassis: Power, Size, Speed, Limb Count, Element.

use crate::collections::{refers_to, first_index, first_match, lemma_first_index_at, lemma_first_index_none};
use crate::data::balance::BalanceConfig;
use crate::text::str_eq;
use vstd::prelude::*;

verus! {

#[derive(Debug, Clone, Copy, PartialEq, Eq, Hash, Structural)]
pub enum Element {
    BioElectric,
    Plant,
    Rock,
    Fire,
    Water,
    Poison,
}

impl Element {
    pub fn display_name(self) -> (r: &'static str)
        ensures
            r@ == match self {
                Element::BioElectric => "Bio-Electric"@,
                Element::Plant => "Plant"@,
                Element::Rock => "Rock"@,
                Element::Fire => "Fire"@,
                Element::Water => "Water"@,
                Element::Poison => "Poison"@,
            },
    {
        match self {
            Element::BioElectric => "Bio-Electric",
            Element::Plant => "Plant",
            Element::Rock => "Rock",
            Element::Fire => "Fire",
            Element::Water => "Water",
            Element::Poison => "Poison",
        }
    }
}

#[derive(Debug, Clone, Copy, PartialEq, Eq, Hash, Structural)]
pub enum SizeClass {
    Small,
    Medium,
    Large,
    Huge,
}

impl SizeClass {
    /// Party/battle field budget cost.
    pub fn slot_cost(self, balance: &BalanceConfig) -> (r: u32)
        ensures
            r == balance.party_slot_cost.cost_of(self),
    {
        balance.party_slot_cost.get(self)
    }

    pub fn display_name(self) -> (r: &'static str)
        ensures
            r@ == match self {
                SizeClass::Small => "Small"@,
                SizeClass::Medium => "Medium"@,
                SizeClass::Large => "Large"@,
                SizeClass::Huge => "Huge"@,
            },
    {
        match self {
            SizeClass::Small => "Small",
            SizeClass::Medium => "Medium",
            SizeClass::Large => "Large",
            SizeClass::Huge => "Huge",
        }
    }
}

/// Strain-tolerance personality: gentler creatures
/// have the lowest strain tolerance.
#[derive(Debug, Clone, Copy, PartialEq, Eq, Hash, Structural)]
pub enum Temperament {
    Gentle,
    Placid,
    Wary,
    Fierce,
}

impl Temperament {
    pub fn display_name(self) -> (r: &'static str)
        ensures
            r@ == match self {
                Temperament::Gentle => "Gentle"@,
                Temperament::Placid => "Placid"@,
                Temperament::Wary => "Wary"@,
                Temperament::Fierce => "Fierce"@,
            },
    {
        match self {
            Temperament::Gentle => "Gentle",
            Temperament::Placid => "Placid",
            Temperament::Wary => "Wary",
            Temperament::Fierce => "Fierce",
        }
    }
}

/// Limb-count archetype.
#[derive(Debug, Clone, Copy, PartialEq, Eq, Hash, Structural)]
pub enum LimbArchetype {
    Flier,
    Standard,
    Utility,
    Heavy,
}

impl LimbArchetype {
    pub fn display_name(self) -> (r: &'static str)
        ensures
            r@ == match self {
                LimbArchetype::Flier => "Flier"@,
                LimbArchetype::Standard => "Standard"@,
                LimbArchetype::Utility => "Utility"@,
                LimbArchetype::Heavy => "Heavy"@,
            },
    {
        match self {
            LimbArchetype::Flier => "Flier",
            LimbArchetype::Standard => "Standard",
            LimbArchetype::Utility => "Utility",
            LimbArchetype::Heavy => "Heavy",
        }
    }
}

/// Graftware weight class a mount point accepts (also used by graftware defs).
/// Classes are ordered Light < Medium < Heavy.
#[derive(Debug, Clone, Copy, PartialEq, Eq, Hash, Structural)]
pub enum WeightClass {
    Light,
    Medium,
    Heavy,
}

impl WeightClass {
    /// Position in the order Light < Medium < Heavy.
    pub open spec fn order(self) -> int {
        match self {
            WeightClass::Light => 0,
            WeightClass::Medium => 1,
            WeightClass::Heavy => 2,
        }
    }

    /// Whether this class is strictly heavier than `other` (the derived
    /// ordering's `self > other`).
    pub fn heavier_than(self, other: WeightClass) -> (r: bool)
        ensures
            r == (self.order() > other.order()),
    {
        let a: u8 = match self {
            WeightClass::Light => 0,
            WeightClass::Medium => 1,
            WeightClass::Heavy => 2,
        };
        let b: u8 = match other {
            WeightClass::Light => 0,
            WeightClass::Medium => 1,
            WeightClass::Heavy => 2,
        };
        a > b
    }

    pub fn display_name(self) -> (r: &'static str)
        ensures
            r@ == match self {
                WeightClass::Light => "Light"@,
                WeightClass::Medium => "Medium"@,
                WeightClass::Heavy => "Heavy"@,
            },
    {
        match self {
            WeightClass::Light => "Light",
            WeightClass::Medium => "Medium",
            WeightClass::Heavy => "Heavy",
        }
    }
}

/// Where a limb sits on the sprite — drives called-shot directional mapping
/// (up = head/back, down = legs, left/right = arms).
#[derive(Debug, Clone, Copy, PartialEq, Eq, Hash, Structural)]
pub enum LimbRegion {
    Head,
    Back,
    ArmLeft,
    ArmRight,
    Legs,
    Tail,
}

impl LimbRegion {
    pub fn display_name(self) -> (r: &'static str)
        ensures
            r@ == match self {
                LimbRegion::Head => "Head"@,
                LimbRegion::Back => "Back"@,
                LimbRegion::ArmLeft => "Left Arm"@,
                LimbRegion::ArmRight => "Right Arm"@,
                LimbRegion::Legs => "Legs"@,
                LimbRegion::Tail => "Tail"@,
            },
    {
        match self {
            LimbRegion::Head => "Head",
            LimbRegion::Back => "Back",
            LimbRegion::ArmLeft => "Left Arm",
            LimbRegion::ArmRight => "Right Arm",
            LimbRegion::Legs => "Legs",
            LimbRegion::Tail => "Tail",
        }
    }
}

/// One war-body limb: a targetable body segment that can host graftware
/// mounts. Limbs regrow while the core lives; mounted graftware does not.
#[derive(Debug, Clone)]
pub struct LimbDef {
    pub id: String,
    pub name: String,
    pub region: LimbRegion,
    /// Mount points on this limb (0..=2), by accepted weight class.
    pub mounts: Vec<WeightClass>,
}

/// The limb test "its id reads `id`".
pub open spec fn limb_has_id(id: Seq<char>) -> spec_fn(LimbDef) -> bool {
    |l: LimbDef| l.id@ == id
}

/// Total number of mount points over a list of limbs.
pub open spec fn total_mounts(limbs: Seq<LimbDef>) -> int
    decreases limbs.len(),
{
    if limbs.len() == 0 {
        0
    } else {
        total_mounts(limbs.drop_last()) + limbs.last().mounts@.len()
    }
}

#[derive(Debug, Clone)]
pub struct SpeciesDef {
    pub id: String,
    pub name: String,
    pub description: String,
    pub element: Element,
    pub size: SizeClass,
    pub temperament: Temperament,
    pub archetype: LimbArchetype,
    /// Biological capacity, 0-100.
    pub power: u32,
    /// 0-100. Fast = dodge + battle movement + overworld pace.
    pub speed: u32,
    pub natural_flight: bool,
    /// Flat innate shell armor (subtracted from limb hits).
    pub innate_armor: u32,
    pub limbs: Vec<LimbDef>,
    /// Content tier 1-4: gates wild placement and factory depth.
    pub tier: u32,
    /// Biome tags for encounter tables (e.g. "meadow", "marsh", "caldera").
    pub biomes: Vec<String>,
}

impl SpeciesDef {
    /// Total number of graftware mount points over all limbs.
    pub fn mount_count(&self) -> (r: usize)
        requires
            total_mounts(self.limbs@) <= usize::MAX,
        ensures
            r == total_mounts(self.limbs@),
    {
        let mut n: usize = 0;
        let mut i: usize = 0;
        while i < self.limbs.len()
            invariant
                i <= self.limbs@.len(),
                n == total_mounts(self.limbs@.take(i as int)),
                total_mounts(self.limbs@) <= usize::MAX,
            decreases self.limbs@.len() - i,
        {
            assert(self.limbs@.take(i + 1).drop_last() =~= self.limbs@.take(i as int));
            proof {
                lemma_total_mounts_prefix(self.limbs@, i + 1);
            }
            n = n + self.limbs[i].mounts.len();
            i = i + 1;
        }
        assert(self.limbs@.take(i as int) =~= self.limbs@);
        n
    }

    /// The first limb with this id.
    pub fn limb(&self, limb_id: &str) -> (r: Option<&LimbDef>)
        ensures
            refers_to(r, first_match(self.limbs@, limb_has_id(limb_id@))),
    {
        let mut i: usize = 0;
        while i < self.limbs.len()
            invariant
                i <= self.limbs@.len(),
                forall|j: int| 0 <= j < i ==> !limb_has_id(limb_id@)(#[trigger] self.limbs@[j]),
            decreases self.limbs@.len() - i,
        {
            if str_eq(self.limbs[i].id.as_str(), limb_id) {
                proof {
                    lemma_first_index_at(self.limbs@, limb_has_id(limb_id@), i as int);
                }
                return Some(&self.limbs[i]);
            }
            i = i + 1;
        }
        proof {
            lemma_first_index_none(self.limbs@, limb_has_id(limb_id@));
        }
        None
    }
}

/// A prefix of a limb list has no more mount points than the whole list.
pub proof fn lemma_total_mounts_prefix(limbs: Seq<LimbDef>, i: int)
    requires
        0 <= i <= limbs.len(),
    ensures
        total_mounts(limbs.take(i)) <= total_mounts(limbs),
    decreases limbs.len(),
{
    if i < limbs.len() {
        assert(limbs.drop_last().take(i) =~= limbs.take(i));
        lemma_total_mounts_prefix(limbs.drop_last(), i);
    } else {
        assert(limbs.take(i) =~= limbs);
    }
}

} // verus!
