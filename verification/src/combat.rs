//! Battle vocabulary shared by the rules: sides, standing orders, the three
//! combat contexts, player commands, and what a finished battle yields.
//!
//! The engine is pause-agnostic: Wait/Active pacing and the command menu are
//! the game layer's job.

pub mod resolve;
pub mod unit;

use vstd::prelude::*;

verus! {

/// Index of a unit on the battlefield.
pub type UnitId = usize;

#[derive(Debug, Clone, Copy, PartialEq, Eq, Structural)]
pub enum Side {
    Player,
    Enemy,
}

impl Side {
    pub fn opponent(self) -> (r: Side)
        ensures
            r == match self {
                Side::Player => Side::Enemy,
                Side::Enemy => Side::Player,
            },
    {
        match self {
            Side::Player => Side::Enemy,
            Side::Enemy => Side::Player,
        }
    }
}

/// Standing orders for autonomous creatures.
#[derive(Debug, Clone, Copy, PartialEq, Eq, Structural)]
pub enum Stance {
    Aggressive,
    Defensive,
}

impl Stance {
    pub fn display_name(self) -> (r: &'static str)
        ensures
            r@ == match self {
                Stance::Aggressive => "Aggressive"@,
                Stance::Defensive => "Defensive"@,
            },
    {
        match self {
            Stance::Aggressive => "Aggressive",
            Stance::Defensive => "Defensive",
        }
    }
}

/// The three combat contexts. Same engine; the context only changes the
/// fiction and how victory resolves.
#[derive(Debug, Clone, Copy, PartialEq, Eq, Structural)]
pub enum BattleContext {
    WildSubdue,
    FactoryDismantle,
    Duel,
}

/// A called shot's specific target on an enemy.
#[derive(Debug, Clone, Copy, PartialEq, Eq, Structural)]
pub enum CalledTarget {
    /// Sever this limb (index into unit limbs).
    Limb(usize),
    /// Silence this mounted graft directly (index into unit mounts).
    Mount(usize),
}

#[derive(Debug, Clone, Copy, PartialEq, Eq, Structural)]
pub enum WeaponRef {
    /// Natural melee (claws, tail) — always available, unarmed creatures' only option.
    Natural,
    /// A mounted weapon graft (index into unit mounts).
    Mount(usize),
}

/// Commands the player can issue — to the ridden creature, or party-wide.
#[derive(Debug, Clone, Copy, PartialEq, Eq, Structural)]
pub enum PlayerCommand {
    Fire { mount: usize, target: UnitId, called: Option<CalledTarget> },
    NaturalAttack { target: UnitId, called: Option<CalledTarget> },
    TriggerUtility { mount: usize, ally: Option<UnitId> },
    Regrow { limb: usize },
    Reinforce,
    SetStance { unit: UnitId, stance: Stance },
    BeginHop { to: UnitId },
}

/// What a won battle yields, before profile resolution.
#[derive(Debug, Clone, PartialEq, Eq)]
pub struct BattleRewards {
    /// Species ids of cracked cores — captures (wild) or freed cores (factory).
    pub captured_species: Vec<String>,
    /// Graftware def ids recovered from the battlefield.
    pub salvage: Vec<String>,
    pub scrip: i64,
}

#[derive(Debug, Clone, PartialEq, Eq)]
pub enum BattleOutcome {
    Victory(BattleRewards),
    /// Every fielded core cracked — you flee and escape.
    Fled,
}

} // verus!
