//! The world ledger: what the rider has done to each factory
//! (verdicts and their fallout).

use crate::collections::StrMap;
use vstd::prelude::*;

verus! {

/// A verdict passed on a factory heart.
#[derive(Debug, Clone, Copy, PartialEq, Eq, Structural)]
pub enum Verdict {
    Purge,
    Reseed,
    Bind,
}

/// Everything the ledger records about one factory.
#[derive(Debug, Clone, Copy, PartialEq, Eq, Structural)]
pub struct FactoryState {
    pub heart_defeated: bool,
    pub verdict: Option<Verdict>,
    /// The region has relapsed under a new keeper.
    pub relapsed: bool,
    /// The region's watch is funded.
    pub invested: bool,
    /// The IEEE-754 bits of the accumulated relapse risk; these rules carry
    /// it without reading it.
    pub relapse_risk_bits: u32,
}

/// The record of a factory nothing has happened to yet.
pub open spec fn untouched() -> FactoryState {
    FactoryState {
        heart_defeated: false,
        verdict: None,
        relapsed: false,
        invested: false,
        relapse_risk_bits: 0,
    }
}

impl Default for FactoryState {
    fn default() -> (r: Self)
        ensures
            r == untouched(),
    {
        FactoryState {
            heart_defeated: false,
            verdict: None,
            relapsed: false,
            invested: false,
            relapse_risk_bits: 0,
        }
    }
}

/// The record per factory id.
pub struct WorldState {
    pub factories: StrMap<FactoryState>,
}

impl Clone for WorldState {
    fn clone(&self) -> (r: Self)
        ensures
            r.factories@ == self.factories@,
    {
        WorldState { factories: self.factories.clone() }
    }
}

impl Default for WorldState {
    fn default() -> (r: Self)
        ensures
            r.factories@ == Map::<Seq<char>, FactoryState>::empty(),
    {
        WorldState { factories: StrMap::new() }
    }
}

impl WorldState {
    /// The record of a factory (untouched when the ledger has none).
    pub open spec fn factory_spec(&self, id: Seq<char>) -> FactoryState {
        if self.factories@.contains_key(id) {
            self.factories@[id]
        } else {
            untouched()
        }
    }

    pub fn factory(&self, id: &str) -> (r: FactoryState)
        ensures
            r == self.factory_spec(id@),
    {
        match self.factories.get(id) {
            Some(s) => *s,
            None => FactoryState::default(),
        }
    }

    /// The verdict passed on a factory, if any.
    pub fn verdict(&self, id: &str) -> (r: Option<Verdict>)
        ensures
            r == self.factory_spec(id@).verdict,
    {
        self.factory(id).verdict
    }

    /// Records a factory's new state.
    pub fn set_factory(&mut self, id: &str, state: FactoryState)
        ensures
            final(self).factories@ == old(self).factories@.insert(id@, state),
    {
        self.factories.insert(id.to_owned(), state);
    }
}

} // verus!
