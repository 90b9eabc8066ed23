//! Player-side quest progression: which quests are accepted, how far along
//! their objective is, and which are finished. Definitions live in `data::quest`.

use crate::collections::{names_contain, StrMap, StrSet};
use crate::data::quest::QuestObjectiveKind;
use crate::data::GameData;
use crate::model::inventory::{GraftCondition, GraftItem};
use crate::model::journal::{record, JournalEntry};
use crate::state::GameSession;
use crate::text::{concat2, concat3, int_text, nat_text, push_i64, push_str, push_u64};
use vstd::prelude::*;

verus! {

/// A quest's lifecycle: not engaged → active (progressing) → ready (objective
/// met, awaiting turn-in) → done (reward claimed).
pub struct QuestLog {
    /// Accepted quests still in progress: id → current progress count.
    pub active: StrMap<u32>,
    /// Objective met, waiting for the giver to close it out.
    pub ready: StrSet,
    /// Finished quests (reward already granted).
    pub done: StrSet,
}

impl Clone for QuestLog {
    fn clone(&self) -> (r: Self)
        ensures
            r.active@ == self.active@,
            r.ready@ == self.ready@,
            r.done@ == self.done@,
    {
        QuestLog { active: self.active.clone(), ready: self.ready.clone(), done: self.done.clone() }
    }
}

impl Default for QuestLog {
    fn default() -> (r: Self)
        ensures
            r.active@ == Map::<Seq<char>, u32>::empty(),
            r.ready@ == Set::<Seq<char>>::empty(),
            r.done@ == Set::<Seq<char>>::empty(),
    {
        QuestLog { active: StrMap::new(), ready: StrSet::new(), done: StrSet::new() }
    }
}

impl QuestLog {
    /// No quest is in two lifecycle stages at once.
    pub open spec fn stages_exclusive(&self) -> bool {
        &&& forall|k: Seq<char>| #[trigger] self.active@.contains_key(k) ==> !self.ready@.contains(k) && !self.done@.contains(k)
        &&& forall|k: Seq<char>| #[trigger] self.ready@.contains(k) ==> !self.done@.contains(k)
    }

    /// The quest has never been engaged in any way.
    pub open spec fn untaken(&self, id: Seq<char>) -> bool {
        !self.active@.contains_key(id) && !self.ready@.contains(id) && !self.done@.contains(id)
    }

    pub fn is_active(&self, id: &str) -> (r: bool)
        ensures
            r == self.active@.contains_key(id@),
    {
        self.active.contains_key(id)
    }

    pub fn is_ready(&self, id: &str) -> (r: bool)
        ensures
            r == self.ready@.contains(id@),
    {
        self.ready.contains(id)
    }

    pub fn is_done(&self, id: &str) -> (r: bool)
        ensures
            r == self.done@.contains(id@),
    {
        self.done.contains(id)
    }

    /// Whether the quest was never accepted, readied or finished: the
    /// condition for offering it.
    pub fn is_untaken(&self, id: &str) -> (r: bool)
        ensures
            r == self.untaken(id@),
    {
        !self.is_active(id) && !self.is_ready(id) && !self.is_done(id)
    }

    /// The first quest worth surfacing in the HUD: a ready one takes priority
    /// (go turn it in), otherwise an active one.
    pub fn tracked_quest(&self) -> (r: Option<String>)
        ensures
            r matches Some(id) ==> (self.ready@.contains(id@) || (self.ready@ =~= Set::<Seq<char>>::empty()
                && self.active@.contains_key(id@))),
            r is None <==> (self.ready@ =~= Set::<Seq<char>>::empty() && self.active@.dom() =~= Set::<Seq<char>>::empty()),
    {
        match self.ready.first() {
            Some(id) => Some(id.clone()),
            None => {
                let keys = self.active.keys();
                if keys.len() == 0 {
                    proof {
                        assert forall|k: Seq<char>| !self.active@.contains_key(k) by {
                            if self.active@.contains_key(k) {
                                assert(crate::collections::names_contain(keys@, k));
                            }
                        }
                    }
                    assert(self.active@.dom() =~= Set::<Seq<char>>::empty());
                    None
                } else {
                    assert(crate::collections::names_contain(keys@, keys@[0]@));
                    assert(self.active@.contains_key(keys@[0]@));
                    assert(self.active@.dom().contains(keys@[0]@));
                    Some(keys[0].clone())
                }
            },
        }
    }
}

/// The strings' texts, in order.
pub open spec fn texts(v: Seq<String>) -> Seq<Seq<char>> {
    v.map_values(|s: String| s@)
}

/// Whether accepting quest `q` takes effect: it was never engaged and it is
/// defined.
pub open spec fn start_applies(log: &QuestLog, data: &GameData, q: Seq<char>) -> bool {
    log.untaken(q) && data.quests@.contains_key(q)
}

/// Whether turning in quest `q` takes effect: it is ready and defined.
pub open spec fn complete_applies(log: &QuestLog, data: &GameData, q: Seq<char>) -> bool {
    log.ready@.contains(q) && data.quests@.contains_key(q)
}

/// The notices for the parts a reward hands out: one per part that `data`
/// defines, naming it.
pub open spec fn graft_notes(data: &GameData, grafts: Seq<String>) -> Seq<Seq<char>>
    decreases grafts.len(),
{
    if grafts.len() == 0 {
        Seq::empty()
    } else {
        let rest = graft_notes(data, grafts.drop_last());
        if data.graftware@.contains_key(grafts.last()@) {
            rest.push("Received: "@ + data.graftware@[grafts.last()@].name@)
        } else {
            rest
        }
    }
}

/// The parts handed out for `grafts` after the first `base` items, with ids
/// counting up from `first_id`: item `base + j` is an intact `grafts[j]`.
pub open spec fn granted_from(items: Seq<GraftItem>, base: int, first_id: u64, grafts: Seq<String>) -> bool {
    &&& items.len() == base + grafts.len()
    &&& forall|j: int| 0 <= j < grafts.len() ==> {
        &&& (#[trigger] items[base + j]).id == first_id + j
        &&& items[base + j].def_id@ == grafts[j]@
        &&& items[base + j].condition == GraftCondition::Intact
    }
}

/// The notices that turning in quest `q` yields: its scrip (when positive),
/// then one per defined reward part.
pub open spec fn reward_notes(data: &GameData, q: Seq<char>) -> Seq<Seq<char>> {
    let def = data.quests@[q];
    let scrip = if def.reward_scrip > 0 {
        seq!["Received "@ + int_text(def.reward_scrip as int) + " scrip"@]
    } else {
        Seq::empty()
    };
    scrip + graft_notes(data, def.reward_grafts@)
}

/// Hands out one intact part per entry of `grafts`, returning a notice for
/// each one `data` defines.
pub(crate) fn grant_grafts(session: &mut GameSession, data: &GameData, grafts: &Vec<String>) -> (r: Vec<String>)
    requires
        old(session).profile.next_id() + grafts@.len() < u64::MAX,
    ensures
        texts(r@) == graft_notes(data, grafts@),
        final(session).profile.next_id() == old(session).profile.next_id() + grafts@.len(),
        final(session).profile.inventory.items@.take(old(session).profile.inventory.items@.len() as int)
            == old(session).profile.inventory.items@,
        granted_from(
            final(session).profile.inventory.items@,
            old(session).profile.inventory.items@.len() as int,
            old(session).profile.next_id(),
            grafts@,
        ),
        final(session).profile.inventory.scrip == old(session).profile.inventory.scrip,
        final(session).profile.inventory.consumables@ == old(session).profile.inventory.consumables@,
        final(session).profile.roster == old(session).profile.roster,
        final(session).profile.rider == old(session).profile.rider,
        final(session).quests == old(session).quests,
        final(session).journal == old(session).journal,
        final(session).story_flags == old(session).story_flags,
        final(session).world_state == old(session).world_state,
        final(session).steps == old(session).steps,
        final(session).location == old(session).location,
        final(session).pace == old(session).pace,
        final(session).battles_fought == old(session).battles_fought,
        old(session).profile.ids_fresh() ==> final(session).profile.ids_fresh(),
{
    let ghost base = old(session).profile.inventory.items@;
    let mut notes: Vec<String> = Vec::new();
    let mut i: usize = 0;
    while i < grafts.len()
        invariant
            i <= grafts@.len(),
            old(session).profile.next_id() + grafts@.len() < u64::MAX,
            session.profile.next_id() == old(session).profile.next_id() + i,
            session.profile.inventory.items@.take(base.len() as int) == base,
            granted_from(session.profile.inventory.items@, base.len() as int, old(session).profile.next_id(), grafts@.take(i as int)),
            texts(notes@) == graft_notes(data, grafts@.take(i as int)),
            session.profile.inventory.scrip == old(session).profile.inventory.scrip,
            session.profile.inventory.consumables@ == old(session).profile.inventory.consumables@,
            session.profile.roster == old(session).profile.roster,
            session.profile.rider == old(session).profile.rider,
            session.quests == old(session).quests,
            session.journal == old(session).journal,
            session.story_flags == old(session).story_flags,
            session.world_state == old(session).world_state,
            session.steps == old(session).steps,
            session.location == old(session).location,
            session.pace == old(session).pace,
            session.battles_fought == old(session).battles_fought,
            old(session).profile.ids_fresh() ==> session.profile.ids_fresh(),
        decreases grafts@.len() - i,
    {
        let ghost before = session.profile.inventory.items@;
        let ghost notes_before = notes@;
        session.profile.grant_graft(grafts[i].as_str(), GraftCondition::Intact);
        if let Some(g) = data.graftware.get(grafts[i].as_str()) {
            notes.push(concat2("Received: ", g.name.as_str()));
        }
        proof {
            let gi = grafts@.take(i + 1);
            assert(gi.drop_last() =~= grafts@.take(i as int));
            assert(gi.last() == grafts@[i as int]);
            assert(session.profile.inventory.items@.take(base.len() as int) =~= base) by {
                assert forall|k: int| 0 <= k < base.len() implies session.profile.inventory.items@[k] == base[k] by {
                    assert(session.profile.inventory.items@[k] == session.profile.inventory.items@.drop_last()[k]);
                    assert(before.take(base.len() as int)[k] == base[k]);
                }
            }
            assert forall|j: int| 0 <= j < gi.len() implies {
                &&& (#[trigger] session.profile.inventory.items@[base.len() + j]).id == old(session).profile.next_id() + j
                &&& session.profile.inventory.items@[base.len() + j].def_id@ == gi[j]@
                &&& session.profile.inventory.items@[base.len() + j].condition == GraftCondition::Intact
            } by {
                if j < i {
                    assert(session.profile.inventory.items@[base.len() + j] == before[base.len() + j]);
                    assert(grafts@.take(i as int)[j] == gi[j]);
                }
            }
            assert(texts(notes@) =~= graft_notes(data, gi)) by {
                if data.graftware@.contains_key(grafts@[i as int]@) {
                    assert(texts(notes@) =~= texts(notes_before).push(notes@.last()@));
                } else {
                    assert(notes@ == notes_before);
                }
            }
        }
        i = i + 1;
    }
    assert(grafts@.take(i as int) =~= grafts@);
    notes
}

/// Accept a quest if it hasn't been engaged yet. Returns a notice line.
pub fn start(session: &mut GameSession, data: &GameData, quest_id: &str) -> (r: Option<String>)
    ensures
        r is Some == start_applies(&old(session).quests, data, quest_id@),
        r is Some <==> (data.quests@.contains_key(quest_id@) && !old(session).quests.active@.contains_key(quest_id@)
            && !old(session).quests.ready@.contains(quest_id@) && !old(session).quests.done@.contains(quest_id@)),
        r matches Some(note) ==> {
            let name = data.quests@[quest_id@].name@;
            &&& note@ == "New quest: "@ + name
            &&& final(session).quests.active@ == old(session).quests.active@.insert(quest_id@, 0)
            &&& final(session).quests.ready@ == old(session).quests.ready@
            &&& final(session).quests.done@ == old(session).quests.done@
            &&& final(session).journal@.len() == old(session).journal@.len() + 1
            &&& final(session).journal@.drop_last() == old(session).journal@
            &&& final(session).journal@.last().step == old(session).steps
            &&& final(session).journal@.last().text@ == "Took the bounty: "@ + name + "."@
        },
        r is None ==> *final(session) == *old(session),
        final(session).profile == old(session).profile,
        final(session).story_flags == old(session).story_flags,
        final(session).world_state == old(session).world_state,
        final(session).steps == old(session).steps,
        final(session).location == old(session).location,
        final(session).pace == old(session).pace,
        final(session).battles_fought == old(session).battles_fought,
        old(session).quests.stages_exclusive() ==> final(session).quests.stages_exclusive(),
{
    if !session.quests.is_untaken(quest_id) {
        return None;
    }
    let def = match data.quests.get(quest_id) {
        Some(d) => d,
        None => {
            return None;
        },
    };
    session.quests.active.insert(quest_id.to_owned(), 0);
    record(session, concat3("Took the bounty: ", def.name.as_str(), "."));
    assert(session.journal@.drop_last() =~= old(session).journal@);
    Some(concat2("New quest: ", def.name.as_str()))
}

/// Whether a subdue event counts toward quest `q`: it is defined with a
/// subdue-wild objective.
pub open spec fn counts_subdues(data: &GameData, q: Seq<char>) -> bool {
    data.quests@.contains_key(q) && data.quests@[q].objective.kind == QuestObjectiveKind::SubdueWild
}

/// Progress after `n` more subdues: capped at the objective's count.
pub open spec fn progress_after(p: u32, n: u32, count: u32) -> u32 {
    if p + n < count {
        (p + n) as u32
    } else {
        count
    }
}

/// Whether `n` more subdues meet quest `q`'s objective in `log`.
pub open spec fn meets_objective(log: &QuestLog, data: &GameData, q: Seq<char>, n: u32) -> bool {
    &&& log.active@.contains_key(q)
    &&& counts_subdues(data, q)
    &&& progress_after(log.active@[q], n, data.quests@[q].objective.count) >= data.quests@[q].objective.count
}

/// The notice for a quest whose objective is met.
pub open spec fn objective_note(data: &GameData, q: Seq<char>) -> Seq<char> {
    "Objective met: "@ + data.quests@[q].name@ + " — return to "@ + data.quests@[q].giver@
}

/// What subduing `n` wild creatures does to the quest log: every subdue
/// bounty advances, those whose objective is now met move to ready, and
/// `lines` announce them; nothing else changes.
pub open spec fn subdue_progress(before: GameSession, after: GameSession, data: &GameData, n: u32, lines: Seq<Seq<char>>) -> bool {
    &&& forall|k: Seq<char>| #[trigger] after.quests.active@.contains_key(k) == (before.quests.active@.contains_key(k)
        && !meets_objective(&before.quests, data, k, n))
    &&& forall|k: Seq<char>| #[trigger] after.quests.active@.contains_key(k) ==> after.quests.active@[k] == if counts_subdues(data, k) {
        progress_after(before.quests.active@[k], n, data.quests@[k].objective.count)
    } else {
        before.quests.active@[k]
    }
    &&& forall|k: Seq<char>| #[trigger] after.quests.ready@.contains(k) == (before.quests.ready@.contains(k)
        || meets_objective(&before.quests, data, k, n))
    &&& after.quests.done@ == before.quests.done@
    &&& exists|met: Seq<Seq<char>>| {
        &&& met.no_duplicates()
        &&& (forall|k: Seq<char>| met.contains(k) <==> meets_objective(&before.quests, data, k, n))
        &&& lines == met.map_values(|k: Seq<char>| objective_note(data, k))
    }
    &&& after.profile == before.profile
    &&& after.journal == before.journal
    &&& after.story_flags == before.story_flags
    &&& after.world_state == before.world_state
    &&& after.steps == before.steps
    &&& after.location == before.location
    &&& after.pace == before.pace
    &&& after.battles_fought == before.battles_fought
    &&& before.quests.stages_exclusive() ==> after.quests.stages_exclusive()
}

/// Advance every active `SubdueWild` quest by `n` subdued creatures. Any quest
/// whose objective is now met moves to `ready`. Returns notice lines.
pub fn advance_subdue(session: &mut GameSession, data: &GameData, n: u32) -> (r: Vec<String>)
    requires
        forall|k: Seq<char>| #[trigger] old(session).quests.active@.contains_key(k) && counts_subdues(data, k)
            ==> old(session).quests.active@[k] + n <= u32::MAX,
    ensures
        subdue_progress(*old(session), *final(session), data, n, texts(r@)),
        forall|k: Seq<char>|
            #![trigger final(session).quests.active@.contains_key(k)]
            #![trigger final(session).quests.ready@.contains(k)]
            old(session).quests.active@.contains_key(k) && data.quests@.contains_key(k)
                && data.quests@[k].objective.kind == QuestObjectiveKind::SubdueWild ==> if old(session).quests.active@[k] + n
                >= data.quests@[k].objective.count {
                final(session).quests.ready@.contains(k) && !final(session).quests.active@.contains_key(k)
            } else {
                final(session).quests.active@.contains_key(k) && final(session).quests.active@[k] == old(session).quests.active@[k] + n
            },
{
    let ghost log0 = old(session).quests;
    let keys = session.quests.active.keys();
    let mut notes: Vec<String> = Vec::new();
    let mut completed: Vec<String> = Vec::new();
    let mut i: usize = 0;
    while i < keys.len()
        invariant
            i <= keys@.len(),
            forall|k: Seq<char>| names_contain(keys@, k) <==> log0.active@.contains_key(k),
            forall|a: int, b: int| 0 <= a < b < keys@.len() ==> (#[trigger] keys@[a])@ != (#[trigger] keys@[b])@,
            forall|k: Seq<char>| #[trigger] log0.active@.contains_key(k) && counts_subdues(data, k) ==> log0.active@[k] + n <= u32::MAX,
            // keys already handled carry their new progress; the rest are untouched
            forall|k: Seq<char>| #[trigger] session.quests.active@.contains_key(k) == log0.active@.contains_key(k),
            forall|k: Seq<char>| #[trigger] session.quests.active@.contains_key(k) ==> session.quests.active@[k] == if crate::collections::name_in_prefix(keys@, i as int, k) && counts_subdues(data, k) {
                progress_after(log0.active@[k], n, data.quests@[k].objective.count)
            } else {
                log0.active@[k]
            },
            forall|k: Seq<char>| names_contain(completed@, k) <==> (crate::collections::name_in_prefix(keys@, i as int, k) && meets_objective(&log0, data, k, n)),
            texts(notes@) == texts(completed@).map_values(|k: Seq<char>| objective_note(data, k)),
            forall|a: int, b: int| 0 <= a < b < completed@.len() ==> (#[trigger] completed@[a])@ != (#[trigger] completed@[b])@,
            session.quests.ready@ == log0.ready@,
            session.quests.done@ == log0.done@,
            session.profile == old(session).profile,
            session.journal == old(session).journal,
            session.story_flags == old(session).story_flags,
            session.world_state == old(session).world_state,
            session.steps == old(session).steps,
            session.location == old(session).location,
            session.pace == old(session).pace,
            session.battles_fought == old(session).battles_fought,
        decreases keys@.len() - i,
    {
        let key = &keys[i];
        let ghost kv = key@;
        proof {
            assert(names_contain(keys@, kv));
            assert forall|k: Seq<char>| crate::collections::name_in_prefix(keys@, i + 1, k) == (crate::collections::name_in_prefix(keys@, i as int, k) || k == kv) by {
                crate::collections::lemma_name_in_prefix_step(keys@, i as int, k);
            }
            assert(!crate::collections::name_in_prefix(keys@, i as int, kv)) by {
                if crate::collections::name_in_prefix(keys@, i as int, kv) {
                    let j = choose|j: int| 0 <= j < i && (#[trigger] keys@[j])@ == kv;
                    assert(keys@[j]@ != keys@[i as int]@);
                }
            }
        }
        let ghost notes_before = notes@;
        let ghost completed_before = completed@;
        match data.quests.get(key.as_str()) {
            Some(def) => {
                if def.objective.kind == QuestObjectiveKind::SubdueWild {
                    let progress = match session.quests.active.get(key.as_str()) {
                        Some(p) => *p,
                        None => 0,
                    };
                    let sum = progress + n;
                    let count = def.objective.count;
                    let next = if sum < count { sum } else { count };
                    if next >= count {
                        let mut note = concat2("Objective met: ", def.name.as_str());
                        push_str(&mut note, " — return to ");
                        push_str(&mut note, def.giver.as_str());
                        notes.push(note);
                        completed.push(key.clone());
                    }
                    session.quests.active.insert(key.clone(), next);
                }
            },
            None => {},
        }
        proof {
            assert forall|k: Seq<char>| names_contain(completed@, k) <==> (crate::collections::name_in_prefix(keys@, i + 1, k) && meets_objective(&log0, data, k, n)) by {
                if completed@.len() > completed_before.len() {
                    assert(completed@ == completed_before.push(completed@.last()));
                    crate::collections::lemma_names_push(completed_before, completed@.last(), k);
                }
            }
            if completed@.len() > completed_before.len() {
                assert(completed@ =~= completed_before.push(completed@.last()));
                assert(texts(completed@) =~= texts(completed_before).push(kv));
                assert(texts(notes@) =~= texts(notes_before).push(notes@.last()@));
                assert forall|a: int, b: int| 0 <= a < b < completed@.len() implies (#[trigger] completed@[a])@ != (#[trigger] completed@[b])@ by {
                    if b == completed_before.len() {
                        assert(completed@[a] == completed_before[a]);
                        assert(names_contain(completed_before, completed_before[a]@));
                    }
                }
            }
        }
        i = i + 1;
    }
    proof {
        assert forall|k: Seq<char>| crate::collections::name_in_prefix(keys@, i as int, k) == log0.active@.contains_key(k) by {
            if log0.active@.contains_key(k) {
                assert(names_contain(keys@, k));
                let j = choose|j: int| 0 <= j < keys@.len() && (#[trigger] keys@[j])@ == k;
                assert(crate::collections::name_in_prefix(keys@, i as int, k));
            }
            if crate::collections::name_in_prefix(keys@, i as int, k) {
                let j = choose|j: int| 0 <= j < i && (#[trigger] keys@[j])@ == k;
                assert(names_contain(keys@, k));
            }
        }
    }
    let mut j: usize = 0;
    while j < completed.len()
        invariant
            j <= completed@.len(),
            forall|a: int, b: int| 0 <= a < b < completed@.len() ==> (#[trigger] completed@[a])@ != (#[trigger] completed@[b])@,
            forall|k: Seq<char>| names_contain(completed@, k) <==> meets_objective(&log0, data, k, n),
            forall|k: Seq<char>| #[trigger] session.quests.active@.contains_key(k) == (log0.active@.contains_key(k)
                && !crate::collections::name_in_prefix(completed@, j as int, k)),
            forall|k: Seq<char>| #[trigger] session.quests.active@.contains_key(k) ==> session.quests.active@[k] == if counts_subdues(data, k) {
                progress_after(log0.active@[k], n, data.quests@[k].objective.count)
            } else {
                log0.active@[k]
            },
            forall|k: Seq<char>| #[trigger] session.quests.ready@.contains(k) == (log0.ready@.contains(k)
                || crate::collections::name_in_prefix(completed@, j as int, k)),
            session.quests.done@ == log0.done@,
            session.profile == old(session).profile,
            session.journal == old(session).journal,
            session.story_flags == old(session).story_flags,
            session.world_state == old(session).world_state,
            session.steps == old(session).steps,
            session.location == old(session).location,
            session.pace == old(session).pace,
            session.battles_fought == old(session).battles_fought,
        decreases completed@.len() - j,
    {
        proof {
            assert forall|k: Seq<char>| crate::collections::name_in_prefix(completed@, j + 1, k) == (crate::collections::name_in_prefix(completed@, j as int, k) || k == completed@[j as int]@) by {
                crate::collections::lemma_name_in_prefix_step(completed@, j as int, k);
            }
        }
        session.quests.active.remove(completed[j].as_str());
        session.quests.ready.insert(completed[j].clone());
        j = j + 1;
    }
    proof {
        assert forall|k: Seq<char>| crate::collections::name_in_prefix(completed@, j as int, k) == meets_objective(&log0, data, k, n) by {
            crate::collections::lemma_name_in_full_prefix(completed@, k);
            assert(names_contain(completed@, k) == meets_objective(&log0, data, k, n));
        }
        let met = texts(completed@);
        assert(met.no_duplicates()) by {
            assert forall|a: int, b: int| 0 <= a < met.len() && 0 <= b < met.len() && a != b implies met[a] != met[b] by {
                if a < b {
                    assert(completed@[a]@ != completed@[b]@);
                } else {
                    assert(completed@[b]@ != completed@[a]@);
                }
            }
        }
        assert forall|k: Seq<char>| met.contains(k) <==> meets_objective(&log0, data, k, n) by {
            if met.contains(k) {
                let w = choose|w: int| 0 <= w < met.len() && met[w] == k;
                assert(completed@[w]@ == k);
                assert(names_contain(completed@, k));
            }
            if names_contain(completed@, k) {
                let w = choose|w: int| 0 <= w < completed@.len() && (#[trigger] completed@[w])@ == k;
                assert(met[w] == k);
            }
        }
        if log0.stages_exclusive() {
            assert forall|k: Seq<char>| (#[trigger] session.quests.active@.contains_key(k) ==> !session.quests.ready@.contains(k) && !session.quests.done@.contains(k))
                && (session.quests.ready@.contains(k) ==> !session.quests.done@.contains(k)) by {
                assert(log0.active@.contains_key(k) ==> !log0.ready@.contains(k) && !log0.done@.contains(k));
                assert(log0.ready@.contains(k) ==> !log0.done@.contains(k));
                assert(j == completed@.len());
                crate::collections::lemma_name_in_full_prefix(completed@, k);
                assert(names_contain(completed@, k) == meets_objective(&log0, data, k, n));
                assert(crate::collections::name_in_prefix(completed@, j as int, k) == meets_objective(&log0, data, k, n));
                if meets_objective(&log0, data, k, n) {
                    assert(log0.active@.contains_key(k));
                }
            }
            assert forall|k: Seq<char>| #[trigger] session.quests.ready@.contains(k) implies !session.quests.done@.contains(k) by {
                assert(log0.active@.contains_key(k) ==> !log0.ready@.contains(k) && !log0.done@.contains(k));
                assert(log0.ready@.contains(k) ==> !log0.done@.contains(k));
                assert(crate::collections::name_in_prefix(completed@, j as int, k) == meets_objective(&log0, data, k, n));
                if meets_objective(&log0, data, k, n) {
                    assert(log0.active@.contains_key(k));
                }
            }
        }
    }
    notes
}

/// Turn in a ready quest, granting its reward. Returns notice lines.
pub fn complete(session: &mut GameSession, data: &GameData, quest_id: &str) -> (r: Vec<String>)
    requires
        complete_applies(&old(session).quests, data, quest_id@) ==> {
            let def = data.quests@[quest_id@];
            &&& def.reward_scrip > 0 ==> old(session).profile.inventory.scrip + def.reward_scrip <= i64::MAX
            &&& old(session).profile.next_id() + def.reward_grafts@.len() < u64::MAX
        },
    ensures
        !complete_applies(&old(session).quests, data, quest_id@) ==> r@.len() == 0 && *final(session) == *old(session),
        !old(session).quests.ready@.contains(quest_id@) ==> *final(session) == *old(session),
        old(session).quests.ready@.contains(quest_id@) && data.quests@.contains_key(quest_id@)
            ==> final(session).quests.done@.contains(quest_id@) && !final(session).quests.ready@.contains(quest_id@),
        complete_applies(&old(session).quests, data, quest_id@) ==> {
            let def = data.quests@[quest_id@];
            let items0 = old(session).profile.inventory.items@;
            &&& final(session).quests.active@ == old(session).quests.active@
            &&& final(session).quests.ready@ == old(session).quests.ready@.remove(quest_id@)
            &&& final(session).quests.done@ == old(session).quests.done@.insert(quest_id@)
            &&& final(session).journal@.len() == old(session).journal@.len() + 1
            &&& final(session).journal@.drop_last() == old(session).journal@
            &&& final(session).journal@.last().step == old(session).steps
            &&& final(session).journal@.last().text@ == "Saw through the bounty: "@ + def.name@ + "."@
            &&& final(session).profile.inventory.scrip == old(session).profile.inventory.scrip + if def.reward_scrip > 0 {
                def.reward_scrip
            } else {
                0
            }
            &&& final(session).profile.inventory.items@.take(items0.len() as int) == items0
            &&& granted_from(final(session).profile.inventory.items@, items0.len() as int, old(session).profile.next_id(), def.reward_grafts@)
            &&& final(session).profile.next_id() == old(session).profile.next_id() + def.reward_grafts@.len()
            &&& final(session).profile.inventory.consumables@ == old(session).profile.inventory.consumables@
            &&& final(session).profile.roster == old(session).profile.roster
            &&& final(session).profile.rider == old(session).profile.rider
            &&& texts(r@) == reward_notes(data, quest_id@)
        },
        final(session).story_flags == old(session).story_flags,
        final(session).world_state == old(session).world_state,
        final(session).steps == old(session).steps,
        final(session).location == old(session).location,
        final(session).pace == old(session).pace,
        final(session).battles_fought == old(session).battles_fought,
        old(session).quests.stages_exclusive() ==> final(session).quests.stages_exclusive(),
        old(session).profile.ids_fresh() ==> final(session).profile.ids_fresh(),
{
    let mut notes: Vec<String> = Vec::new();
    if !session.quests.is_ready(quest_id) {
        return notes;
    }
    let def = match data.quests.get(quest_id) {
        Some(d) => d,
        None => {
            return notes;
        },
    };
    session.quests.ready.remove(quest_id);
    session.quests.done.insert(quest_id.to_owned());
    record(session, concat3("Saw through the bounty: ", def.name.as_str(), "."));
    assert(session.journal@.drop_last() =~= old(session).journal@);
    if def.reward_scrip > 0 {
        session.profile.inventory.scrip = session.profile.inventory.scrip + def.reward_scrip;
        let mut line = "Received ".to_owned();
        push_i64(&mut line, def.reward_scrip);
        push_str(&mut line, " scrip");
        notes.push(line);
    }
    let ghost notes_mid = notes@;
    let ghost mid = *session;
    let mut more = grant_grafts(session, data, &def.reward_grafts);
    let ghost more_view = more@;
    notes.append(&mut more);
    proof {
        assert(texts(notes@) =~= texts(notes_mid) + texts(more_view));
        if old(session).quests.stages_exclusive() {
            assert forall|k: Seq<char>| (#[trigger] session.quests.active@.contains_key(k) ==> !session.quests.ready@.contains(k) && !session.quests.done@.contains(k))
                && (session.quests.ready@.contains(k) ==> !session.quests.done@.contains(k)) by {
                assert(old(session).quests.active@.contains_key(k) ==> !old(session).quests.ready@.contains(k) && !old(session).quests.done@.contains(k));
                assert(old(session).quests.ready@.contains(k) ==> !old(session).quests.done@.contains(k));
                assert(old(session).quests.active@.contains_key(quest_id@) ==> !old(session).quests.ready@.contains(quest_id@));
            }
            assert forall|k: Seq<char>| #[trigger] session.quests.ready@.contains(k) implies !session.quests.done@.contains(k) by {
                assert(old(session).quests.ready@.contains(k) ==> !old(session).quests.done@.contains(k));
            }
        }
        if def.reward_scrip > 0 {
            assert(texts(notes_mid) =~= seq!["Received "@ + int_text(def.reward_scrip as int) + " scrip"@]);
        } else {
            assert(texts(notes_mid) =~= Seq::<Seq<char>>::empty());
        }
    }
    notes
}

/// HUD line for the quest worth surfacing: "Objective (2/3)" or a turn-in
/// prompt.
pub fn tracker_line(session: &GameSession, data: &GameData) -> (r: Option<String>)
    ensures
        (session.quests.ready@ =~= Set::<Seq<char>>::empty() && session.quests.active@.dom() =~= Set::<Seq<char>>::empty()) ==> r is None,
        r matches Some(line) ==> exists|id: Seq<char>| {
            &&& #[trigger] data.quests@.contains_key(id)
            &&& if session.quests.ready@.contains(id) {
                line@ == data.quests@[id].name@ + " — see "@ + data.quests@[id].giver@
            } else {
                &&& session.quests.ready@ =~= Set::<Seq<char>>::empty()
                &&& session.quests.active@.contains_key(id)
                &&& line@ == data.quests@[id].tracker@ + " ("@ + nat_text(session.quests.active@[id] as nat) + "/"@
                    + nat_text(data.quests@[id].objective.count as nat) + ")"@
            }
        },
        r is None ==> (session.quests.ready@ =~= Set::<Seq<char>>::empty() && session.quests.active@.dom() =~= Set::<Seq<char>>::empty())
            || exists|id: Seq<char>| !data.quests@.contains_key(id) && (session.quests.ready@.contains(id) || (session.quests.ready@
            =~= Set::<Seq<char>>::empty() && session.quests.active@.contains_key(id))),
{
    let id = match session.quests.tracked_quest() {
        Some(id) => id,
        None => {
            return None;
        },
    };
    let def = match data.quests.get(id.as_str()) {
        Some(d) => d,
        None => {
            return None;
        },
    };
    if session.quests.is_ready(id.as_str()) {
        let mut line = concat2(def.name.as_str(), " — see ");
        push_str(&mut line, def.giver.as_str());
        assert(data.quests@.contains_key(id@));
        return Some(line);
    }
    let progress = match session.quests.active.get(id.as_str()) {
        Some(p) => *p,
        None => 0,
    };
    let mut line = concat2(def.tracker.as_str(), " (");
    push_u64(&mut line, progress as u64);
    push_str(&mut line, "/");
    push_u64(&mut line, def.objective.count as u64);
    push_str(&mut line, ")");
    assert(data.quests@.contains_key(id@));
    Some(line)
}

} // verus!
