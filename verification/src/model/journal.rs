//! The rider's chronicle: an auto-generated journal of deeds.

use crate::state::GameSession;
use vstd::prelude::*;

verus! {

pub struct JournalEntry {
    /// Overworld step count when the entry was written.
    pub step: u64,
    pub text: String,
}

impl Clone for JournalEntry {
    fn clone(&self) -> (r: Self)
        ensures
            r == *self,
    {
        JournalEntry { step: self.step, text: self.text.clone() }
    }
}

/// Appends a journal entry stamped with the current step count.
pub fn record(session: &mut GameSession, text: String)
    ensures
        final(session).journal@ == old(session).journal@.push(JournalEntry { step: old(session).steps, text }),
        final(session).profile == old(session).profile,
        final(session).quests == old(session).quests,
        final(session).story_flags == old(session).story_flags,
        final(session).world_state == old(session).world_state,
        final(session).steps == old(session).steps,
        final(session).location == old(session).location,
        final(session).pace == old(session).pace,
        final(session).battles_fought == old(session).battles_fought,
{
    let step = session.steps;
    session.journal.push(JournalEntry { step, text });
}

} // verus!
