//! Graftware definitions — semi-living weapons, armor, and utility organs
//! grafted onto war-body limbs.

use crate::data::species::{Element, WeightClass};
use vstd::prelude::*;

verus! {

#[derive(Debug, Clone, Copy, PartialEq, Eq, Hash, Structural)]
pub enum GraftKind {
    Weapon,
    Armor,
    Utility,
}

impl GraftKind {
    pub fn display_name(self) -> (r: &'static str)
        ensures
            r@ == match self {
                GraftKind::Weapon => "Weapon"@,
                GraftKind::Armor => "Armor"@,
                GraftKind::Utility => "Utility"@,
            },
    {
        match self {
            GraftKind::Weapon => "Weapon",
            GraftKind::Armor => "Armor",
            GraftKind::Utility => "Utility",
        }
    }
}

/// What the rules read of a graftware definition: identity, kind, weight
/// class, power load and floor, tier and value. (The combat numbers —
/// damage, cooldowns, armor, effects, boosts — are not read by these rules.)
#[derive(Debug, Clone)]
pub struct GraftwareDef {
    pub id: String,
    pub name: String,
    pub description: String,
    pub kind: GraftKind,
    pub weight: WeightClass,
    /// Sustained power-capacity load while equipped.
    pub power_draw: u32,
    /// Minimum creature Power stat required to wield at all.
    pub min_power: u32,
    /// Element affinity — synergizes on matching-element chassis; None = neutral.
    pub element: Option<Element>,
    /// Content tier 1-4, gating factory depth / shop availability.
    pub tier: u32,
    /// Base currency value (repair cost derives from this).
    pub value: i64,
}

/// Repair price for a part of base value `value`: half the value (rounded
/// toward zero), never below 5.
pub open spec fn repair_price(value: i64) -> i64 {
    if value >= 10 {
        (value / 2) as i64
    } else {
        5
    }
}

impl GraftwareDef {
    pub fn is_weapon(&self) -> (r: bool)
        ensures
            r == (self.kind == GraftKind::Weapon),
    {
        self.kind == GraftKind::Weapon
    }

    pub fn repair_cost(&self) -> (r: i64)
        ensures
            r == repair_price(self.value),
    {
        let half = self.value / 2;
        if half < 5 {
            5
        } else {
            half
        }
    }
}

} // verus!
