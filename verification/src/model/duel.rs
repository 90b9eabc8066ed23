//! Duel bookkeeping: antes, stake transfer, and ladder rank. The battle
//! itself runs on the normal engine with
//! `BattleContext::Duel`; this module handles what changes hands afterward.

use crate::collections::{keep, lemma_keep_occurs, occurs};
use crate::data::settlement::DuelistDef;
use crate::data::GameData;
use crate::model::inventory::{GraftCondition, GraftItem};
use crate::model::loadout_items;
use crate::model::quest::texts;
use crate::state::GameSession;
use crate::text::{concat2, int_text, nat_text, push_i64, push_str, push_u64};
use vstd::prelude::*;

verus! {

/// A duel accepted and about to be (or being) fought.
#[derive(Debug, Clone, PartialEq, Eq)]
pub struct PendingDuel {
    pub settlement_id: String,
    pub duelist_id: String,
    /// Inventory item the player put up (staked lane only).
    pub my_stake: Option<u64>,
}

/// The item test "it may be staked": intact, not equipped anywhere in the
/// roster, and of a defined part worth at least `min_value`.
pub open spec fn stakeable(equipped: Seq<u64>, data: &GameData, min_value: i64) -> spec_fn(GraftItem) -> bool {
    |item: GraftItem|
        item.usable() && !occurs(equipped, item.id) && data.graftware@.contains_key(item.def_id@)
            && data.graftware@[item.def_id@].value >= min_value
}

/// The item test "its id is not `id`".
pub open spec fn item_id_is_not(id: u64) -> spec_fn(GraftItem) -> bool {
    |item: GraftItem| item.id != id
}

/// A session's ring rank at a settlement (0 before any win there).
pub open spec fn rank_at(session: &GameSession, settlement_id: Seq<char>) -> u32 {
    if session.profile.rider.duel_ranks@.contains_key(settlement_id) {
        session.profile.rider.duel_ranks@[settlement_id]
    } else {
        0
    }
}

fn vec_has_u64(v: &Vec<u64>, x: u64) -> (r: bool)
    ensures
        r == occurs(v@, x),
{
    let mut i: usize = 0;
    while i < v.len()
        invariant
            i <= v@.len(),
            forall|j: int| 0 <= j < i ==> v@[j] != x,
        decreases v@.len() - i,
    {
        if v[i] == x {
            return true;
        }
        i = i + 1;
    }
    false
}

/// Items the player may legally stake: unequipped, intact, and valuable
/// enough. The equipped-loadout exclusion is the protected-loadout floor —
/// you cannot wager the graftware currently keeping your creatures standing.
pub fn eligible_stakes(session: &GameSession, data: &GameData, min_value: i64) -> (r: Vec<u64>)
    ensures
        r@ == keep(
            session.profile.inventory.items@,
            stakeable(loadout_items(session.profile.roster.creatures@), data, min_value),
        ).map_values(|item: GraftItem| item.id),
        forall|k: int| 0 <= k < r@.len() ==> !occurs(loadout_items(session.profile.roster.creatures@), #[trigger] r@[k]),
        forall|k: int| #![trigger r@[k]] 0 <= k < r@.len() ==> exists|i: int| 0 <= i < session.profile.inventory.items@.len()
            && (#[trigger] session.profile.inventory.items@[i]).id == r@[k]
            && session.profile.inventory.items@[i].condition == GraftCondition::Intact
            && data.graftware@.contains_key(session.profile.inventory.items@[i].def_id@)
            && data.graftware@[session.profile.inventory.items@[i].def_id@].value >= min_value,
{
    let equipped = session.profile.equipped_item_ids();
    let ghost pred = stakeable(equipped@, data, min_value);
    let items = &session.profile.inventory.items;
    let mut r: Vec<u64> = Vec::new();
    let mut i: usize = 0;
    while i < items.len()
        invariant
            i <= items@.len(),
            pred == stakeable(equipped@, data, min_value),
            r@ == keep(items@.take(i as int), pred).map_values(|item: GraftItem| item.id),
        decreases items@.len() - i,
    {
        assert(items@.take(i + 1).drop_last() =~= items@.take(i as int));
        let item = &items[i];
        let ok = item.is_usable() && !vec_has_u64(&equipped, item.id) && match data.graftware.get(item.def_id.as_str()) {
            Some(def) => def.value >= min_value,
            None => false,
        };
        if ok {
            r.push(item.id);
            assert(r@ =~= keep(items@.take(i + 1), pred).map_values(|item: GraftItem| item.id));
        }
        i = i + 1;
    }
    assert(items@.take(i as int) =~= items@);
    proof {
        assert forall|k: int| 0 <= k < r@.len() implies !occurs(equipped@, #[trigger] r@[k]) by {
            let kept = keep(items@, pred);
            assert(r@[k] == kept[k].id);
            crate::collections::lemma_keep_occurs(items@, pred, kept[k]);
            assert(occurs(kept, kept[k]));
        }
        assert forall|k: int| #![trigger r@[k]] 0 <= k < r@.len() implies exists|i: int| 0 <= i < items@.len()
            && (#[trigger] items@[i]).id == r@[k]
            && items@[i].condition == GraftCondition::Intact
            && data.graftware@.contains_key(items@[i].def_id@)
            && data.graftware@[items@[i].def_id@].value >= min_value by {
            let kept = keep(items@, pred);
            assert(r@[k] == kept[k].id);
            crate::collections::lemma_keep_occurs(items@, pred, kept[k]);
            assert(occurs(kept, kept[k]));
            let i = choose|i: int| 0 <= i < items@.len() && items@[i] == kept[k];
            assert(items@[i].id == r@[k]);
        }
    }
    r
}

pub fn current_rank(session: &GameSession, settlement_id: &str) -> (r: u32)
    ensures
        r == rank_at(session, settlement_id@),
{
    match session.profile.rider.duel_ranks.get(settlement_id) {
        Some(n) => *n,
        None => 0,
    }
}

pub fn can_challenge(session: &GameSession, settlement_id: &str, duelist: &DuelistDef) -> (r: bool)
    ensures
        r == (rank_at(session, settlement_id@) >= duelist.rank_req),
{
    current_rank(session, settlement_id) >= duelist.rank_req
}

/// The name `data` gives the part `def_id`, or `fallback` when it defines
/// no such part.
pub open spec fn part_name(data: &GameData, def_id: Seq<char>, fallback: Seq<char>) -> Seq<char> {
    if data.graftware@.contains_key(def_id) {
        data.graftware@[def_id].name@
    } else {
        fallback
    }
}

/// The notices of a won duel: the reward, the stake won (if the duelist put
/// one up), and the new ring rank (if the win advances the ladder).
pub open spec fn win_notes(session: &GameSession, data: &GameData, pending: &PendingDuel, duelist: &DuelistDef) -> Seq<Seq<char>> {
    let reward = seq![duelist.name@ + " yields \u{2014} "@ + int_text(duelist.reward_scrip as int) + " scrip"@];
    let stake = match duelist.stake {
        Some(d) => seq!["Won the stake: "@ + part_name(data, d@, d@)],
        None => Seq::empty(),
    };
    let ranked = if duelist.rank_req >= rank_at(session, pending.settlement_id@) {
        seq!["Ring rank is now "@ + nat_text((duelist.rank_req + 1) as nat)]
    } else {
        Seq::empty()
    };
    reward + stake + ranked
}

/// Removes every part with id `id`.
fn drop_items_with_id(items: &mut Vec<GraftItem>, id: u64)
    ensures
        final(items)@ == keep(old(items)@, item_id_is_not(id)),
{
    let mut src: Vec<GraftItem> = Vec::new();
    std::mem::swap(&mut src, items);
    let ghost all = src@;
    let ghost p = item_id_is_not(id);
    for item in iter: src
        invariant
            iter.seq() == all,
            p == item_id_is_not(id),
            items@ == keep(all.take(iter.index() as int), p),
    {
        assert(all.take(iter.index() + 1).drop_last() =~= all.take(iter.index() as int));
        if item.id != id {
            items.push(item);
        }
    }
    assert(all.take(all.len() as int) =~= all);
}

/// Winning a duel never lowers a ring rank. The rank at the duel's ring
/// rises, to one above the duelist's requirement, exactly when that
/// requirement is at least the rider's rank there, and stays otherwise;
/// every other ring keeps its rank.
pub proof fn winning_never_lowers_the_rank(
    before: GameSession,
    after: GameSession,
    data: &GameData,
    pending: &PendingDuel,
    duelist: &DuelistDef,
    lines: Seq<Seq<char>>,
)
    requires
        duel_settlement(before, after, data, pending, duelist, true, lines),
        duelist.rank_req < u32::MAX,
    ensures
        ({
            let ring = pending.settlement_id@;
            let was = before.profile.rider.duel_ranks@;
            let now = after.profile.rider.duel_ranks@;
            let r0: int = if was.contains_key(ring) { was[ring] as int } else { 0 };
            let r1: int = if now.contains_key(ring) { now[ring] as int } else { 0 };
            &&& r1 >= r0
            &&& duelist.rank_req >= r0 ==> r1 == duelist.rank_req + 1
            &&& duelist.rank_req < r0 ==> r1 == r0
            &&& forall|k: Seq<char>| k != ring ==> (#[trigger] now.contains_key(k) == was.contains_key(k)
                && (was.contains_key(k) ==> now[k] == was[k]))
        }),
{
}

/// Losing a duel costs the staked part and nothing else: no part with the
/// staked id is left, every other part stays, and scrip, ring ranks and the
/// creatures are untouched. A practice loss costs nothing at all.
pub proof fn losing_forfeits_only_the_stake(
    before: GameSession,
    after: GameSession,
    data: &GameData,
    pending: &PendingDuel,
    duelist: &DuelistDef,
    lines: Seq<Seq<char>>,
)
    requires
        duel_settlement(before, after, data, pending, duelist, false, lines),
    ensures
        after.profile.inventory.scrip == before.profile.inventory.scrip,
        after.profile.rider.duel_ranks@ == before.profile.rider.duel_ranks@,
        after.profile.roster == before.profile.roster,
        pending.my_stake matches Some(id) ==> {
            &&& forall|i: int| 0 <= i < after.profile.inventory.items@.len() ==> (#[trigger] after.profile.inventory.items@[i]).id != id
            &&& forall|i: int| 0 <= i < before.profile.inventory.items@.len() && (#[trigger] before.profile.inventory.items@[i]).id != id
                ==> occurs(after.profile.inventory.items@, before.profile.inventory.items@[i])
        },
        pending.my_stake is None ==> after.profile.inventory.items@ == before.profile.inventory.items@,
{
    if let Some(id) = pending.my_stake {
        let b = before.profile.inventory.items@;
        let a = after.profile.inventory.items@;
        assert forall|i: int| 0 <= i < a.len() implies (#[trigger] a[i]).id != id by {
            assert(occurs(a, a[i]));
            lemma_keep_occurs(b, item_id_is_not(id), a[i]);
        }
        assert forall|i: int| 0 <= i < b.len() && (#[trigger] b[i]).id != id implies occurs(a, b[i]) by {
            assert(occurs(b, b[i]));
            lemma_keep_occurs(b, item_id_is_not(id), b[i]);
        }
    }
}

/// What settling a finished duel does to the session: a win pays the
/// purse, hands over the stake part and may raise the ring rank; a loss
/// forfeits the staked part; `lines` report it. The roster is never touched.
pub open spec fn duel_settlement(before: GameSession, after: GameSession, data: &GameData, pending: &PendingDuel, duelist: &DuelistDef, won: bool, lines: Seq<Seq<char>>) -> bool {
    &&& won ==> {
        let o = before.profile;
        let f = after.profile;
        &&& lines == win_notes(&before, data, pending, duelist)
        &&& f.inventory.scrip == o.inventory.scrip + duelist.reward_scrip
        &&& match duelist.stake {
            Some(d) => {
                &&& f.next_id() == o.next_id() + 1
                &&& f.inventory.items@.len() == o.inventory.items@.len() + 1
                &&& f.inventory.items@.drop_last() == o.inventory.items@
                &&& f.inventory.items@.last().id == o.next_id()
                &&& f.inventory.items@.last().def_id@ == d@
                &&& f.inventory.items@.last().condition == GraftCondition::Intact
            },
            None => f.next_id() == o.next_id() && f.inventory.items@ == o.inventory.items@,
        }
        &&& if duelist.rank_req >= rank_at(&before, pending.settlement_id@) {
            f.rider.duel_ranks@ == o.rider.duel_ranks@.insert(pending.settlement_id@, (duelist.rank_req + 1) as u32)
        } else {
            f.rider.duel_ranks@ == o.rider.duel_ranks@
        }
        &&& f.rider.name == o.rider.name
    }
    &&& !won ==> {
        let o = before.profile;
        let f = after.profile;
        &&& f.rider == o.rider
        &&& f.next_id() == o.next_id()
        &&& f.inventory.scrip == o.inventory.scrip
        &&& match pending.my_stake {
            Some(id) => {
                &&& lines == match o.inventory.item_spec(id) {
                    Some(item) => seq!["Lost the stake: "@ + part_name(data, item.def_id@, "part"@)],
                    None => Seq::empty(),
                }
                &&& f.inventory.items@ == keep(o.inventory.items@, item_id_is_not(id))
            },
            None => {
                &&& lines == seq!["A practice loss costs nothing but pride."@]
                &&& f.inventory.items@ == o.inventory.items@
            },
        }
    }
    &&& after.profile.roster == before.profile.roster
    &&& after.profile.inventory.consumables@ == before.profile.inventory.consumables@
    &&& after.quests == before.quests
    &&& after.journal == before.journal
    &&& after.story_flags == before.story_flags
    &&& after.world_state == before.world_state
    &&& after.steps == before.steps
    &&& after.location == before.location
    &&& after.pace == before.pace
    &&& after.battles_fought == before.battles_fought
    &&& before.profile.ids_fresh() ==> after.profile.ids_fresh()
}

/// Applies a finished duel to the profile. Returns human-readable lines.
pub fn apply_duel_result(
    session: &mut GameSession,
    data: &GameData,
    pending: &PendingDuel,
    duelist: &DuelistDef,
    won: bool,
) -> (r: Vec<String>)
    requires
        won ==> i64::MIN <= old(session).profile.inventory.scrip + duelist.reward_scrip <= i64::MAX,
        won && duelist.stake is Some ==> old(session).profile.next_id() < u64::MAX,
        won ==> duelist.rank_req < u32::MAX,
    ensures
        duel_settlement(*old(session), *final(session), data, pending, duelist, won, texts(r@)),
{
    let mut lines: Vec<String> = Vec::new();
    if won {
        session.profile.inventory.scrip = session.profile.inventory.scrip + duelist.reward_scrip;
        let mut reward = concat2(duelist.name.as_str(), " yields \u{2014} ");
        push_i64(&mut reward, duelist.reward_scrip);
        push_str(&mut reward, " scrip");
        lines.push(reward);
        if let Some(stake_def) = &duelist.stake {
            session.profile.grant_graft(stake_def.as_str(), GraftCondition::Intact);
            let name: &str = match data.graftware.get(stake_def.as_str()) {
                Some(d) => d.name.as_str(),
                None => stake_def.as_str(),
            };
            lines.push(concat2("Won the stake: ", name));
        }
        // Beating a duelist at your rank advances the ladder.
        let rank = current_rank(session, pending.settlement_id.as_str());
        if duelist.rank_req >= rank {
            session.profile.rider.duel_ranks.insert(pending.settlement_id.clone(), duelist.rank_req + 1);
            let mut ranked = String::new();
            push_str(&mut ranked, "Ring rank is now ");
            push_u64(&mut ranked, (duelist.rank_req + 1) as u64);
            lines.push(ranked);
        }
        proof {
            assert(texts(lines@) =~= win_notes(old(session), data, pending, duelist));
        }
    } else if let Some(item_id) = pending.my_stake {
        // The loser hands over the staked part. Their creatures are unharmed.
        if let Some(item) = session.profile.inventory.item(item_id) {
            let name: &str = match data.graftware.get(item.def_id.as_str()) {
                Some(d) => d.name.as_str(),
                None => "part",
            };
            lines.push(concat2("Lost the stake: ", name));
        }
        drop_items_with_id(&mut session.profile.inventory.items, item_id);
        proof {
            assert(texts(lines@) =~= match old(session).profile.inventory.item_spec(item_id) {
                Some(item) => seq!["Lost the stake: "@ + part_name(data, item.def_id@, "part"@)],
                None => Seq::<Seq<char>>::empty(),
            });
            if old(session).profile.ids_fresh() {
                let kept = session.profile.inventory.items@;
                assert forall|i: int| 0 <= i < kept.len() implies (#[trigger] kept[i]).id < session.profile.next_id() by {
                    lemma_keep_occurs(old(session).profile.inventory.items@, item_id_is_not(item_id), kept[i]);
                    assert(occurs(kept, kept[i]));
                }
            }
        }
    } else {
        lines.push("A practice loss costs nothing but pride.".to_owned());
        assert(texts(lines@) =~= seq!["A practice loss costs nothing but pride."@]);
    }
    lines
}

} // verus!
