//! Quest definitions: NPC-offered objectives with one-shot rewards
//! (the Hollow asks small, concrete things of the rider).

use vstd::prelude::*;

verus! {

/// What finishing a quest requires.
#[derive(Debug, Clone, Copy, PartialEq, Eq, Structural)]
pub enum QuestObjectiveKind {
    /// Subdue wild creatures anywhere in the world.
    SubdueWild,
}

#[derive(Debug, Clone, Copy, PartialEq, Eq, Structural)]
pub struct QuestObjective {
    pub kind: QuestObjectiveKind,
    /// How many of the counted event must occur.
    pub count: u32,
}

#[derive(Debug, Clone)]
pub struct QuestDef {
    pub id: String,
    pub name: String,
    /// Display name of the NPC who offers and closes the quest — used to point
    /// the player home when the objective is met.
    pub giver: String,
    /// One-line objective shown in the overworld tracker.
    pub tracker: String,
    pub objective: QuestObjective,
    pub reward_scrip: i64,
    pub reward_grafts: Vec<String>,
}

} // verus!
