//! Story progression: flag-gated dialogue selection and one-shot rewards.

use crate::collections::{first_index, lemma_first_index_at, lemma_first_index_none, names_contain};
use crate::data::world::{DialogueCond, DialogueRule, NpcDef};
use crate::data::GameData;
use crate::model::quest::{
    complete, complete_applies, grant_grafts, graft_notes, granted_from, reward_notes, start,
    start_applies, texts,
};
use crate::model::worldstate::Verdict;
use crate::state::GameSession;
use crate::text::{int_text, push_i64, push_str, str_eq};
use vstd::prelude::*;

verus! {

/// Whether a verdict name ("Purge", "Reseed" or "Bind") names the verdict
/// passed.
pub open spec fn verdict_named(name: Seq<char>, verdict: Option<Verdict>) -> bool {
    ||| name == "Purge"@ && verdict == Some(Verdict::Purge)
    ||| name == "Reseed"@ && verdict == Some(Verdict::Reseed)
    ||| name == "Bind"@ && verdict == Some(Verdict::Bind)
}

/// Whether a dialogue condition holds in `session`: every listed constraint
/// is met.
pub open spec fn cond_holds(cond: DialogueCond, session: &GameSession) -> bool {
    &&& forall|i: int| 0 <= i < cond.flags_all@.len() ==> session.story_flags@.contains(#[trigger] cond.flags_all@[i]@)
    &&& forall|i: int| 0 <= i < cond.flags_none@.len() ==> !session.story_flags@.contains(#[trigger] cond.flags_none@[i]@)
    &&& cond.heart_defeated matches Some(f) ==> session.world_state.factory_spec(f@).heart_defeated
    &&& cond.verdict matches Some(p) ==> verdict_named(p.1@, session.world_state.factory_spec(p.0@).verdict)
    &&& cond.relapsed matches Some(p) ==> session.world_state.factory_spec(p.0@).relapsed == p.1
    &&& cond.quest_active matches Some(q) ==> session.quests.active@.contains_key(q@)
    &&& cond.quest_ready matches Some(q) ==> session.quests.ready@.contains(q@)
    &&& cond.quest_done matches Some(q) ==> session.quests.done@.contains(q@)
    &&& cond.quest_none matches Some(q) ==> session.quests.untaken(q@)
}

/// The rule test "it plays in `session`": it has no condition, or its
/// condition holds.
pub open spec fn rule_fires(session: &GameSession) -> spec_fn(DialogueRule) -> bool {
    |rule: DialogueRule|
        match rule.when {
            Some(c) => cond_holds(c, session),
            None => true,
        }
}

fn verdict_matches(name: &str, verdict: Option<Verdict>) -> (r: bool)
    ensures
        r == verdict_named(name@, verdict),
{
    match verdict {
        Some(Verdict::Purge) => str_eq(name, "Purge"),
        Some(Verdict::Reseed) => str_eq(name, "Reseed"),
        Some(Verdict::Bind) => str_eq(name, "Bind"),
        None => false,
    }
}

/// A dialogue condition that passes has every gate met: a quest it names as
/// done is done, as ready is ready, as active is in progress, as untouched
/// is in none of those; every flag it needs is set and every flag it forbids
/// is not.
pub proof fn passing_conditions_meet_their_gates(cond: DialogueCond, session: &GameSession, passes: bool)
    requires
        passes == cond_holds(cond, session),
    ensures
        passes ==> {
            &&& cond.quest_done matches Some(q) ==> session.quests.done@.contains(q@)
            &&& cond.quest_ready matches Some(q) ==> session.quests.ready@.contains(q@)
            &&& cond.quest_active matches Some(q) ==> session.quests.active@.contains_key(q@)
            &&& cond.quest_none matches Some(q) ==> !session.quests.active@.contains_key(q@)
                && !session.quests.ready@.contains(q@) && !session.quests.done@.contains(q@)
            &&& forall|i: int| 0 <= i < cond.flags_all@.len() ==> session.story_flags@.contains(#[trigger] cond.flags_all@[i]@)
            &&& forall|i: int| 0 <= i < cond.flags_none@.len() ==> !session.story_flags@.contains(#[trigger] cond.flags_none@[i]@)
        },
{
}

/// The rule a person speaks by has its condition met: in particular a quest
/// its condition names as done is done.
pub proof fn chosen_rules_meet_their_gates(npc: NpcDef, session: &GameSession, i: int)
    requires
        first_index(npc.dialogue@, rule_fires(session)) == Some(i),
    ensures
        npc.dialogue@[i].when matches Some(c) ==> {
            &&& c.quest_done matches Some(q) ==> session.quests.done@.contains(q@)
            &&& c.quest_ready matches Some(q) ==> session.quests.ready@.contains(q@)
            &&& c.quest_active matches Some(q) ==> session.quests.active@.contains_key(q@)
            &&& forall|j: int| 0 <= j < c.flags_all@.len() ==> session.story_flags@.contains(#[trigger] c.flags_all@[j]@)
        },
{
    crate::collections::lemma_first_index_facts(npc.dialogue@, rule_fires(session));
    if let Some(c) = npc.dialogue@[i].when {
        passing_conditions_meet_their_gates(c, session, true);
    }
}

pub fn cond_passes(cond: &DialogueCond, session: &GameSession) -> (r: bool)
    ensures
        r == cond_holds(*cond, session),
        r ==> (cond.quest_done matches Some(q) ==> session.quests.done@.contains(q@)),
{
    let mut i: usize = 0;
    while i < cond.flags_all.len()
        invariant
            i <= cond.flags_all@.len(),
            forall|j: int| 0 <= j < i ==> session.story_flags@.contains(#[trigger] cond.flags_all@[j]@),
        decreases cond.flags_all@.len() - i,
    {
        if !session.story_flags.contains(cond.flags_all[i].as_str()) {
            return false;
        }
        i = i + 1;
    }
    let mut i: usize = 0;
    while i < cond.flags_none.len()
        invariant
            i <= cond.flags_none@.len(),
            forall|j: int| 0 <= j < i ==> !session.story_flags@.contains(#[trigger] cond.flags_none@[j]@),
        decreases cond.flags_none@.len() - i,
    {
        if session.story_flags.contains(cond.flags_none[i].as_str()) {
            return false;
        }
        i = i + 1;
    }
    if let Some(factory) = &cond.heart_defeated {
        if !session.world_state.factory(factory.as_str()).heart_defeated {
            return false;
        }
    }
    if let Some((factory, verdict)) = &cond.verdict {
        if !verdict_matches(verdict.as_str(), session.world_state.verdict(factory.as_str())) {
            return false;
        }
    }
    if let Some((factory, wanted)) = &cond.relapsed {
        if session.world_state.factory(factory.as_str()).relapsed != *wanted {
            return false;
        }
    }
    if let Some(quest) = &cond.quest_active {
        if !session.quests.is_active(quest.as_str()) {
            return false;
        }
    }
    if let Some(quest) = &cond.quest_ready {
        if !session.quests.is_ready(quest.as_str()) {
            return false;
        }
    }
    if let Some(quest) = &cond.quest_done {
        if !session.quests.is_done(quest.as_str()) {
            return false;
        }
    }
    if let Some(quest) = &cond.quest_none {
        if !session.quests.is_untaken(quest.as_str()) {
            return false;
        }
    }
    true
}

pub struct DialogueSelection<'a> {
    pub lines: &'a [String],
    pub rule: Option<&'a DialogueRule>,
}

/// Picks the first dialogue rule whose condition passes, falling back to the
/// NPC's plain `lines`.
pub fn select_dialogue<'a>(npc: &'a NpcDef, session: &GameSession) -> (r: Option<DialogueSelection<'a>>)
    ensures
        match first_index(npc.dialogue@, rule_fires(session)) {
            Some(i) => r matches Some(sel) && sel.rule matches Some(rule) && *rule == npc.dialogue@[i] && sel.lines@
                == npc.dialogue@[i].lines@,
            None => if npc.lines@.len() == 0 {
                r is None
            } else {
                r matches Some(sel) && sel.rule is None && sel.lines@ == npc.lines@
            },
        },
{
    let mut i: usize = 0;
    while i < npc.dialogue.len()
        invariant
            i <= npc.dialogue@.len(),
            forall|j: int| 0 <= j < i ==> !rule_fires(session)(#[trigger] npc.dialogue@[j]),
        decreases npc.dialogue@.len() - i,
    {
        let rule = &npc.dialogue[i];
        let passes = match &rule.when {
            Some(c) => cond_passes(c, session),
            None => true,
        };
        if passes {
            proof {
                lemma_first_index_at(npc.dialogue@, rule_fires(session), i as int);
            }
            return Some(DialogueSelection { lines: rule.lines.as_slice(), rule: Some(rule) });
        }
        i = i + 1;
    }
    proof {
        lemma_first_index_none(npc.dialogue@, rule_fires(session));
    }
    if npc.lines.len() == 0 {
        None
    } else {
        Some(DialogueSelection { lines: npc.lines.as_slice(), rule: None })
    }
}

/// A rule gated on a flag being unset stops playing once that flag is set:
/// with `flag` among the condition's `flags_none` and set in the session,
/// the condition fails.
pub proof fn gated_rule_fires_once(cond: DialogueCond, session: &GameSession, flag: Seq<char>)
    requires
        names_contain(cond.flags_none@, flag),
        session.story_flags@.contains(flag),
    ensures
        !cond_holds(cond, session),
{
    let i = choose|i: int| 0 <= i < cond.flags_none@.len() && (#[trigger] cond.flags_none@[i])@ == flag;
    assert(session.story_flags@.contains(cond.flags_none@[i]@));
}

/// The parts a rule's rewards hand out, in order: its own parts, then those of
/// the quest it turns in (when that takes effect).
pub open spec fn rule_grafts(rule: DialogueRule, session: &GameSession, data: &GameData) -> Seq<String> {
    rule.give_grafts@ + match rule.complete_quest {
        Some(q) => if complete_applies(&session.quests, data, q@) {
            data.quests@[q@].reward_grafts@
        } else {
            Seq::empty()
        },
        None => Seq::empty(),
    }
}

/// Scrip a rule's rewards hand out: its own gift (when positive), plus the
/// reward of the quest it turns in (when that takes effect and is positive).
pub open spec fn rule_scrip(rule: DialogueRule, session: &GameSession, data: &GameData) -> int {
    (if rule.give_scrip > 0 { rule.give_scrip as int } else { 0 }) + match rule.complete_quest {
        Some(q) => if complete_applies(&session.quests, data, q@) && data.quests@[q@].reward_scrip > 0 {
            data.quests@[q@].reward_scrip as int
        } else {
            0
        },
        None => 0,
    }
}

/// The notices a rule's effects yield, in order: its scrip gift, its parts,
/// the quest it starts, and the rewards of the quest it turns in.
pub open spec fn rule_notes(rule: DialogueRule, session: &GameSession, data: &GameData) -> Seq<Seq<char>> {
    (if rule.give_scrip > 0 {
        seq!["Received "@ + int_text(rule.give_scrip as int) + " scrip"@]
    } else {
        Seq::empty()
    }) + graft_notes(data, rule.give_grafts@) + match rule.start_quest {
        Some(q) => if start_applies(&session.quests, data, q@) {
            seq!["New quest: "@ + data.quests@[q@].name@]
        } else {
            Seq::empty()
        },
        None => Seq::empty(),
    } + match rule.complete_quest {
        Some(q) => if complete_applies(&session.quests, data, q@) {
            reward_notes(data, q@)
        } else {
            Seq::empty()
        },
        None => Seq::empty(),
    }
}

/// Applies a rule's effects (flags, rewards). Rewards are inherently
/// one-shot: gate them behind a flag in `flags_none` + `set_flags`.
/// Returns notification lines.
pub fn apply_dialogue_effects(rule: &DialogueRule, session: &mut GameSession, data: &GameData) -> (r: Vec<String>)
    requires
        old(session).profile.inventory.scrip + rule_scrip(*rule, old(session), data) <= i64::MAX,
        old(session).profile.next_id() + rule_grafts(*rule, old(session), data).len() < u64::MAX,
    ensures
        forall|k: Seq<char>| #[trigger] final(session).story_flags@.contains(k) == (old(session).story_flags@.contains(k)
            || names_contain(rule.set_flags@, k)),
        final(session).profile.inventory.scrip == old(session).profile.inventory.scrip + rule_scrip(*rule, old(session), data),
        final(session).profile.next_id() == old(session).profile.next_id() + rule_grafts(*rule, old(session), data).len(),
        final(session).profile.inventory.items@.take(old(session).profile.inventory.items@.len() as int)
            == old(session).profile.inventory.items@,
        granted_from(
            final(session).profile.inventory.items@,
            old(session).profile.inventory.items@.len() as int,
            old(session).profile.next_id(),
            rule_grafts(*rule, old(session), data),
        ),
        final(session).profile.inventory.consumables@ == old(session).profile.inventory.consumables@,
        final(session).profile.roster == old(session).profile.roster,
        final(session).profile.rider == old(session).profile.rider,
        final(session).quests.active@ == match rule.start_quest {
            Some(q) => if start_applies(&old(session).quests, data, q@) {
                old(session).quests.active@.insert(q@, 0)
            } else {
                old(session).quests.active@
            },
            None => old(session).quests.active@,
        },
        final(session).quests.ready@ == match rule.complete_quest {
            Some(q) => if complete_applies(&old(session).quests, data, q@) {
                old(session).quests.ready@.remove(q@)
            } else {
                old(session).quests.ready@
            },
            None => old(session).quests.ready@,
        },
        final(session).quests.done@ == match rule.complete_quest {
            Some(q) => if complete_applies(&old(session).quests, data, q@) {
                old(session).quests.done@.insert(q@)
            } else {
                old(session).quests.done@
            },
            None => old(session).quests.done@,
        },
        texts(r@) == rule_notes(*rule, old(session), data),
        final(session).world_state == old(session).world_state,
        final(session).steps == old(session).steps,
        final(session).location == old(session).location,
        final(session).pace == old(session).pace,
        final(session).battles_fought == old(session).battles_fought,
        old(session).quests.stages_exclusive() ==> final(session).quests.stages_exclusive(),
        old(session).profile.ids_fresh() ==> final(session).profile.ids_fresh(),
{
    let ghost s0 = *old(session);
    let mut notes: Vec<String> = Vec::new();
    let mut i: usize = 0;
    while i < rule.set_flags.len()
        invariant
            i <= rule.set_flags@.len(),
            forall|k: Seq<char>| #[trigger] session.story_flags@.contains(k) == (s0.story_flags@.contains(k)
                || crate::collections::name_in_prefix(rule.set_flags@, i as int, k)),
            session.profile == s0.profile,
            session.quests == s0.quests,
            session.journal == s0.journal,
            session.world_state == s0.world_state,
            session.steps == s0.steps,
            session.location == s0.location,
            session.pace == s0.pace,
            session.battles_fought == s0.battles_fought,
        decreases rule.set_flags@.len() - i,
    {
        proof {
            assert forall|k: Seq<char>| crate::collections::name_in_prefix(rule.set_flags@, i + 1, k) == (crate::collections::name_in_prefix(rule.set_flags@, i as int, k) || k == rule.set_flags@[i as int]@) by {
                crate::collections::lemma_name_in_prefix_step(rule.set_flags@, i as int, k);
            }
        }
        session.story_flags.insert(rule.set_flags[i].clone());
        i = i + 1;
    }
    proof {
        assert forall|k: Seq<char>| crate::collections::name_in_prefix(rule.set_flags@, i as int, k) == names_contain(rule.set_flags@, k) by {
            crate::collections::lemma_name_in_full_prefix(rule.set_flags@, k);
        }
    }
    if rule.give_scrip > 0 {
        session.profile.inventory.scrip = session.profile.inventory.scrip + rule.give_scrip;
        let mut line = "Received ".to_owned();
        push_i64(&mut line, rule.give_scrip);
        push_str(&mut line, " scrip");
        notes.push(line);
    }
    let ghost notes1 = notes@;
    let ghost s1 = *session;
    let mut gifts = grant_grafts(session, data, &rule.give_grafts);
    let ghost gifts_view = gifts@;
    notes.append(&mut gifts);
    let ghost s2 = *session;
    let ghost notes2 = notes@;
    if let Some(quest_id) = &rule.start_quest {
        if let Some(note) = start(session, data, quest_id.as_str()) {
            notes.push(note);
        }
    }
    let ghost s3 = *session;
    let ghost notes3 = notes@;
    if let Some(quest_id) = &rule.complete_quest {
        let mut more = complete(session, data, quest_id.as_str());
        notes.append(&mut more);
    }
    proof {
        let n0 = s0.profile.inventory.items@.len() as int;
        let g0 = rule.give_grafts@;
        // scrip note and gifts
        if rule.give_scrip > 0 {
            assert(texts(notes1) =~= seq!["Received "@ + int_text(rule.give_scrip as int) + " scrip"@]);
        } else {
            assert(texts(notes1) =~= Seq::<Seq<char>>::empty());
        }
        assert(texts(notes2) =~= texts(notes1) + texts(gifts_view));
        // start step leaves ready/done alone, so the turn-in test is unchanged
        assert(s3.quests.ready@ == s0.quests.ready@);
        assert(complete_applies(&s3.quests, data, rule.complete_quest->0@) == complete_applies(&s0.quests, data, rule.complete_quest->0@)
            || rule.complete_quest is None);
        match &rule.start_quest {
            Some(q) => {
                if start_applies(&s0.quests, data, q@) {
                    assert(texts(notes3) =~= texts(notes2).push("New quest: "@ + data.quests@[q@].name@));
                } else {
                    assert(texts(notes3) =~= texts(notes2));
                }
            },
            None => {
                assert(texts(notes3) =~= texts(notes2));
            },
        }
        assert(texts(notes@) =~= rule_notes(*rule, &s0, data)) by {
            match &rule.complete_quest {
                Some(q) => {
                    assert(texts(notes@) =~= texts(notes3) + (if complete_applies(&s0.quests, data, q@) { reward_notes(data, q@) } else { Seq::empty() }));
                },
                None => {
                    assert(texts(notes@) =~= texts(notes3));
                },
            }
        }
        // parts: gifts first, then the turn-in rewards with the following ids
        let all = rule_grafts(*rule, &s0, data);
        assert(session.profile.inventory.items@.take(n0) =~= s0.profile.inventory.items@) by {
            assert forall|k: int| 0 <= k < n0 implies session.profile.inventory.items@[k] == s0.profile.inventory.items@[k] by {
                assert(s2.profile.inventory.items@.take(n0)[k] == s0.profile.inventory.items@[k]);
                assert(s3.profile.inventory.items@ == s2.profile.inventory.items@);
                if session.profile.inventory.items@ != s3.profile.inventory.items@ {
                    assert(session.profile.inventory.items@.take(s3.profile.inventory.items@.len() as int)[k] == s3.profile.inventory.items@[k]);
                }
            }
        }
        assert forall|j: int| 0 <= j < all.len() implies {
            &&& (#[trigger] session.profile.inventory.items@[n0 + j]).id == s0.profile.next_id() + j
            &&& session.profile.inventory.items@[n0 + j].def_id@ == all[j]@
            &&& session.profile.inventory.items@[n0 + j].condition == crate::model::inventory::GraftCondition::Intact
        } by {
            if j < g0.len() {
                assert(all[j] == g0[j]);
                assert(s3.profile.inventory.items@ == s2.profile.inventory.items@);
                if session.profile.inventory.items@ != s3.profile.inventory.items@ {
                    assert(session.profile.inventory.items@.take(s3.profile.inventory.items@.len() as int)[n0 + j] == s3.profile.inventory.items@[n0 + j]);
                }
            } else {
                let q = rule.complete_quest->0;
                assert(all[j] == data.quests@[q@].reward_grafts@[j - g0.len()]);
                assert(session.profile.inventory.items@[s3.profile.inventory.items@.len() + (j - g0.len())] == session.profile.inventory.items@[n0 + j]);
            }
        }
        if s0.quests.stages_exclusive() {
            assert(s1.quests == s0.quests);
        }
    }
    notes
}

} // verus!
