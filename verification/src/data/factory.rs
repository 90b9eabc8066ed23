//! Gestarium (bio-factory) definitions — the game's dungeons and the anchor
//! of the verdict system.

use crate::data::settlement::DuelUnitDef;
use crate::data::world::MapDef;
use vstd::prelude::*;

verus! {

#[derive(Debug, Clone)]
pub struct FactoryDef {
    pub id: String,
    pub name: String,
    pub region: String,
    pub description: String,
    /// Floor maps, entrance first, heart floor last.
    pub floors: Vec<MapDef>,
    /// The authored heart-guardian fight on the deepest floor.
    pub heart_guard: Vec<DuelUnitDef>,
    /// The rider's permanent upgrade for silencing this factory, by name.
    pub rider_upgrade: String,
    /// Species this factory can gestate for you once Bound.
    pub grows: Vec<String>,
    /// Scrip cost to grow a core here once Bound.
    pub grow_cost: i64,
}

} // verus!
