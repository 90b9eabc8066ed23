//! The balance numbers that the party rules read.

use crate::data::species::SizeClass;
use vstd::prelude::*;

verus! {

/// Party slots a creature of each size takes.
#[derive(Debug, Clone, Copy, PartialEq, Eq, Structural)]
pub struct SlotCost {
    pub small: u32,
    pub medium: u32,
    pub large: u32,
    pub huge: u32,
}

impl SlotCost {
    pub open spec fn cost_of(self, size: SizeClass) -> u32 {
        match size {
            SizeClass::Small => self.small,
            SizeClass::Medium => self.medium,
            SizeClass::Large => self.large,
            SizeClass::Huge => self.huge,
        }
    }

    pub fn get(&self, size: SizeClass) -> (r: u32)
        ensures
            r == self.cost_of(size),
    {
        match size {
            SizeClass::Small => self.small,
            SizeClass::Medium => self.medium,
            SizeClass::Large => self.large,
            SizeClass::Huge => self.huge,
        }
    }
}

/// Balance tuning that governs the travelling party.
#[derive(Debug, Clone, Copy)]
pub struct BalanceConfig {
    /// Field/party budget in slots.
    pub party_slot_budget: u32,
    /// Slots taken by each size class.
    pub party_slot_cost: SlotCost,
}

} // verus!
