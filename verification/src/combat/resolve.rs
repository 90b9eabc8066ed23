//! Applies a finished battle back to the player's profile: captures, salvage,
//! scrip, and graft damage.

use crate::collections::{first_index, first_match, keep, lemma_first_index_agree, lemma_first_index_facts, occurs, StrMap};
use crate::combat::{BattleContext, BattleOutcome, Side};
use crate::data::GameData;
use crate::model::creature::{assignment_backed, CreatureInstance, CreatureOrigin};
use crate::model::party::{creature_cost, creature_has_id, party_species_known, lemma_party_slots_same_cores, lemma_roster_same_cores, party_slots, slot_room, Roster};
use crate::model::Profile;
use crate::state::GameSession;
use crate::model::inventory::{item_has_id, GraftCondition, GraftItem, Inventory};
use crate::model::quest::{granted_from, texts};
use crate::text::{concat2, int_text, push_i64, push_str};
use vstd::prelude::*;

verus! {

#[derive(Debug, Clone, Default)]
pub struct ResolutionSummary {
    pub lines: Vec<String>,
    /// The owned creatures that fought, one entry per fielded player unit:
    /// fighting together deepens each one's bond by 0.15, up to 10. The bond
    /// is an `f32`, so the caller grows it.
    pub bonded: Vec<u64>,
}

/// A mounted graft as it stands when the battle ends.
#[derive(Debug, Clone)]
pub struct FieldMount {
    /// Inventory item backing this graft (player units only).
    pub item_id: Option<u64>,
    pub destroyed: bool,
    /// Detached with a severed limb.
    pub detached: bool,
}

/// A fielded unit as it stands when the battle ends.
#[derive(Debug, Clone)]
pub struct FieldUnit {
    pub side: Side,
    /// Roster id for player creatures.
    pub creature_id: Option<u64>,
    pub mounts: Vec<FieldMount>,
}

/// A finished battle: its context and outcome, the rider's bag as it came
/// out of the fight, and every fielded unit.
pub struct BattleRecord {
    pub context: BattleContext,
    pub outcome: Option<BattleOutcome>,
    pub bag: StrMap<u32>,
    pub units: Vec<FieldUnit>,
}

/// A mount whose backing part was destroyed or came off with a limb.
pub open spec fn mount_lost(m: FieldMount) -> bool {
    m.item_id is Some && (m.destroyed || m.detached)
}

/// The parts a unit lost, in mount order.
pub open spec fn unit_losses(mounts: Seq<FieldMount>) -> Seq<u64>
    decreases mounts.len(),
{
    if mounts.len() == 0 {
        Seq::empty()
    } else {
        let rest = unit_losses(mounts.drop_last());
        if mount_lost(mounts.last()) {
            rest.push(mounts.last().item_id->0)
        } else {
            rest
        }
    }
}

/// The parts the player's units lost, unit by unit.
pub open spec fn player_losses(units: Seq<FieldUnit>) -> Seq<u64>
    decreases units.len(),
{
    if units.len() == 0 {
        Seq::empty()
    } else {
        player_losses(units.drop_last()) + if units.last().side == Side::Player {
            unit_losses(units.last().mounts@)
        } else {
            Seq::empty()
        }
    }
}

/// `items` after the first part with each id in `ids` is marked damaged.
pub open spec fn marked(items: Seq<GraftItem>, ids: Seq<u64>) -> Seq<GraftItem> {
    Seq::new(
        items.len(),
        |k: int|
            if occurs(ids, items[k].id) && first_index(items, item_has_id(items[k].id)) == Some(k) {
                GraftItem { condition: GraftCondition::Damaged, ..items[k] }
            } else {
                items[k]
            },
    )
}

/// One notice per lost part that `items` holds and `data` defines, naming
/// it as needing repair.
pub open spec fn repair_notes(data: &GameData, items: Seq<GraftItem>, ids: Seq<u64>) -> Seq<Seq<char>>
    decreases ids.len(),
{
    if ids.len() == 0 {
        Seq::empty()
    } else {
        let rest = repair_notes(data, items, ids.drop_last());
        match first_match(items, item_has_id(ids.last())) {
            Some(item) => if data.graftware@.contains_key(item.def_id@) {
                rest.push(data.graftware@[item.def_id@].name@ + " needs repair"@)
            } else {
                rest
            },
            None => rest,
        }
    }
}

/// Marking keeps every part's id, so positions found by id stay put.
proof fn lemma_marked_ids(items: Seq<GraftItem>, ids: Seq<u64>, x: u64)
    ensures
        marked(items, ids).len() == items.len(),
        forall|k: int| 0 <= k < items.len() ==> (#[trigger] marked(items, ids)[k]).id == items[k].id
            && marked(items, ids)[k].def_id == items[k].def_id,
        first_index(marked(items, ids), item_has_id(x)) == first_index(items, item_has_id(x)),
{
    let m = marked(items, ids);
    assert forall|k: int| 0 <= k < m.len() implies item_has_id(x)(#[trigger] m[k]) == item_has_id(x)(items[k]) by {}
    lemma_first_index_agree(m, items, item_has_id(x));
}

/// Marking one more id is marking the first part with that id in what was
/// already marked.
proof fn lemma_marked_push(items: Seq<GraftItem>, ids: Seq<u64>, id: u64)
    ensures
        marked(items, ids.push(id)) == match first_index(marked(items, ids), item_has_id(id)) {
            Some(i) => marked(items, ids).update(
                i,
                GraftItem { condition: GraftCondition::Damaged, ..marked(items, ids)[i] },
            ),
            None => marked(items, ids),
        },
{
    lemma_marked_ids(items, ids, id);
    let before = marked(items, ids);
    let after = marked(items, ids.push(id));
    crate::collections::lemma_first_index_facts(items, item_has_id(id));
    assert forall|k: int| 0 <= k < items.len() implies occurs(ids.push(id), #[trigger] items[k].id) == (occurs(ids, items[k].id)
        || items[k].id == id) by {
        if occurs(ids.push(id), items[k].id) {
            let j = choose|j: int| 0 <= j < ids.push(id).len() && ids.push(id)[j] == items[k].id;
            if j < ids.len() {
                assert(ids[j] == items[k].id);
            }
        }
        if occurs(ids, items[k].id) {
            let j = choose|j: int| 0 <= j < ids.len() && ids[j] == items[k].id;
            assert(ids.push(id)[j] == items[k].id);
        }
        if items[k].id == id {
            assert(ids.push(id)[ids.len() as int] == id);
        }
    }
    match first_index(before, item_has_id(id)) {
        Some(i) => {
            assert forall|k: int| 0 <= k < items.len() implies #[trigger] after[k] == before.update(
                i,
                GraftItem { condition: GraftCondition::Damaged, ..before[i] },
            )[k] by {
                crate::collections::lemma_first_index_facts(items, item_has_id(items[k].id));
            }
            assert(after =~= before.update(i, GraftItem { condition: GraftCondition::Damaged, ..before[i] }));
        },
        None => {
            assert forall|k: int| 0 <= k < items.len() implies #[trigger] after[k] == before[k] by {
                crate::collections::lemma_first_index_facts(items, item_has_id(items[k].id));
            }
            assert(after =~= before);
        },
    }
}

/// Marks every part the player's units lost as damaged and returns a repair
/// notice for each one it can name.
fn mark_losses(inv: &mut Inventory, data: &GameData, units: &Vec<FieldUnit>) -> (r: Vec<String>)
    ensures
        final(inv).items@ == marked(old(inv).items@, player_losses(units@)),
        texts(r@) == repair_notes(data, old(inv).items@, player_losses(units@)),
        final(inv).scrip == old(inv).scrip,
        final(inv).consumables@ == old(inv).consumables@,
{
    let ghost items0 = inv.items@;
    let mut notes: Vec<String> = Vec::new();
    let mut i: usize = 0;
    assert(units@.take(0) =~= Seq::<FieldUnit>::empty());
    assert(marked(items0, Seq::empty()) =~= items0);
    while i < units.len()
        invariant
            i <= units@.len(),
            inv.items@ == marked(items0, player_losses(units@.take(i as int))),
            texts(notes@) == repair_notes(data, items0, player_losses(units@.take(i as int))),
            inv.scrip == old(inv).scrip,
            inv.consumables@ == old(inv).consumables@,
        decreases units@.len() - i,
    {
        let u = &units[i];
        let ghost base = player_losses(units@.take(i as int));
        assert(units@.take(i + 1).drop_last() =~= units@.take(i as int));
        if u.side == Side::Player {
            let mut j: usize = 0;
            assert(u.mounts@.take(0) =~= Seq::<FieldMount>::empty());
            assert(base + unit_losses(u.mounts@.take(0)) =~= base);
            while j < u.mounts.len()
                invariant
                    j <= u.mounts@.len(),
                    inv.items@ == marked(items0, base + unit_losses(u.mounts@.take(j as int))),
                    texts(notes@) == repair_notes(data, items0, base + unit_losses(u.mounts@.take(j as int))),
                    inv.scrip == old(inv).scrip,
                    inv.consumables@ == old(inv).consumables@,
                decreases u.mounts@.len() - j,
            {
                let m = &u.mounts[j];
                let ghost ids = base + unit_losses(u.mounts@.take(j as int));
                assert(u.mounts@.take(j + 1).drop_last() =~= u.mounts@.take(j as int));
                if let Some(item_id) = m.item_id {
                    if m.destroyed || m.detached {
                        inv.mark_damaged(item_id);
                        proof {
                            lemma_marked_push(items0, ids, item_id);
                            assert(base + unit_losses(u.mounts@.take(j + 1)) =~= ids.push(item_id));
                            lemma_marked_ids(items0, ids.push(item_id), item_id);
                            crate::collections::lemma_first_index_facts(items0, item_has_id(item_id));
                            assert(ids.push(item_id).drop_last() =~= ids);
                        }
                        let ghost notes_before = notes@;
                        if let Some(item) = inv.item(item_id) {
                            if let Some(def) = data.graftware.get(item.def_id.as_str()) {
                                notes.push(concat2(def.name.as_str(), " needs repair"));
                                assert(texts(notes@) =~= texts(notes_before).push(notes@.last()@));
                            }
                        }
                    }
                }
                j = j + 1;
            }
            assert(u.mounts@.take(u.mounts@.len() as int) =~= u.mounts@);
            assert(player_losses(units@.take(i + 1)) =~= base + unit_losses(u.mounts@));
        } else {
            assert(player_losses(units@.take(i + 1)) =~= base);
        }
        i = i + 1;
    }
    assert(units@.take(units@.len() as int) =~= units@);
    notes
}

/// Creature `after` is creature `before` with its loadout pruned to the
/// assignments `items` still backs.
pub open spec fn pruned_from(after: CreatureInstance, before: CreatureInstance, items: Seq<GraftItem>) -> bool {
    &&& after.loadout@ == keep(before.loadout@, assignment_backed(items))
    &&& after.id == before.id
    &&& after.species_id == before.species_id
    &&& after.nickname == before.nickname
    &&& after.bond_bits == before.bond_bits
    &&& after.origin == before.origin
}

/// Prunes every creature's loadout against `inv`.
fn prune_all(roster: &mut Roster, inv: &Inventory)
    ensures
        final(roster).creatures@.len() == old(roster).creatures@.len(),
        forall|k: int| 0 <= k < old(roster).creatures@.len() ==> pruned_from(
            #[trigger] final(roster).creatures@[k],
            old(roster).creatures@[k],
            inv.items@,
        ),
        final(roster).party@ == old(roster).party@,
{
    let mut i: usize = 0;
    while i < roster.creatures.len()
        invariant
            i <= roster.creatures@.len(),
            roster.creatures@.len() == old(roster).creatures@.len(),
            roster.party@ == old(roster).party@,
            forall|k: int| 0 <= k < i ==> pruned_from(#[trigger] roster.creatures@[k], old(roster).creatures@[k], inv.items@),
            forall|k: int| i <= k < roster.creatures@.len() ==> #[trigger] roster.creatures@[k] == old(roster).creatures@[k],
        decreases roster.creatures@.len() - i,
    {
        roster.creatures[i].prune_loadout(inv);
        i = i + 1;
    }
}

/// The party after creatures `base..base + n` of `cs` were acquired in turn
/// onto `party`: each joins when its cost fits the room that the party left
/// before it.
pub open spec fn spawn_party(data: &GameData, cs: Seq<CreatureInstance>, party: Seq<u64>, base: int, n: int) -> Seq<u64>
    decreases n,
{
    if n <= 0 {
        party
    } else {
        let p = spawn_party(data, cs, party, base, n - 1);
        let c = cs[base + n - 1];
        if creature_cost(data, c) <= slot_room(data.balance.party_slot_budget, party_slots(data, cs.take(base + n - 1), p)) {
            p.push(c.id)
        } else {
            p
        }
    }
}

proof fn lemma_spawn_party_prefix(
    data: &GameData,
    cs: Seq<CreatureInstance>,
    cs2: Seq<CreatureInstance>,
    party: Seq<u64>,
    base: int,
    n: int,
)
    requires
        0 <= base,
        0 <= n,
        base + n <= cs.len(),
        base + n <= cs2.len(),
        forall|i: int| 0 <= i < base + n ==> #[trigger] cs[i] == cs2[i],
    ensures
        spawn_party(data, cs, party, base, n) == spawn_party(data, cs2, party, base, n),
    decreases n,
{
    if n > 0 {
        lemma_spawn_party_prefix(data, cs, cs2, party, base, n - 1);
        assert(cs.take(base + n - 1) =~= cs2.take(base + n - 1));
        assert(cs[base + n - 1] == cs2[base + n - 1]);
    }
}

/// The origin a core cracked in `context` is recorded with: freed from an
/// unnamed factory in a dismantling, wild otherwise.
pub open spec fn capture_origin(context: BattleContext, o: CreatureOrigin) -> bool {
    if context == BattleContext::FactoryDismantle {
        o matches CreatureOrigin::Freed { factory_id } && factory_id@ == "unknown"@
    } else {
        o == CreatureOrigin::Wild
    }
}

/// The name `data` gives species `s`, or the id itself.
pub open spec fn species_label(data: &GameData, s: Seq<char>) -> Seq<char> {
    if data.species@.contains_key(s) {
        data.species@[s].name@
    } else {
        s
    }
}

/// One notice per cracked core, naming it freed (in a dismantling) or
/// befriended.
pub open spec fn capture_notes(data: &GameData, context: BattleContext, captured: Seq<String>) -> Seq<Seq<char>> {
    captured.map_values(
        |s: String|
            species_label(data, s@) + if context == BattleContext::FactoryDismantle {
                " freed from its war-body"@
            } else {
                " subdued and befriended"@
            },
    )
}

/// New creature `j` of `cs` (after the first `base`) is a fresh core of
/// species `captured[j]` with id `first_id + j`, recorded with the origin of
/// `context`.
pub open spec fn captured_from(
    cs: Seq<CreatureInstance>,
    base: int,
    first_id: u64,
    captured: Seq<String>,
    context: BattleContext,
) -> bool {
    &&& cs.len() == base + captured.len()
    &&& forall|j: int| 0 <= j < captured.len() ==> {
        let c = #[trigger] cs[base + j];
        &&& c.id == first_id + j
        &&& c.species_id@ == captured[j]@
        &&& c.nickname is None
        &&& c.loadout@.len() == 0
        &&& capture_origin(context, c.origin)
    }
}

/// `cs` is a roster that captures leave behind: its first creatures keep the
/// ids and species of `before`, place by place, and one core per captured
/// species follows, with ids counting up from `first_id`.
pub open spec fn capture_roster(cs: Seq<CreatureInstance>, before: Seq<CreatureInstance>, first_id: u64, captured: Seq<String>) -> bool {
    &&& cs.len() == before.len() + captured.len()
    &&& forall|k: int| 0 <= k < before.len() ==> (#[trigger] cs[k]).id == before[k].id && cs[k].species_id == before[k].species_id
    &&& forall|j: int| 0 <= j < captured.len() ==> (#[trigger] cs[before.len() + j]).id == first_id + j
        && cs[before.len() + j].species_id@ == captured[j]@
}

/// A party that stands for creatures of known species and whose slots fit
/// a `u32`: one whose slots can be counted.
pub open spec fn party_fits(data: &GameData, cs: Seq<CreatureInstance>, party: Seq<u64>) -> bool {
    party_species_known(data, cs, party) && party_slots(data, cs, party) <= u32::MAX
}

/// Every party that creatures `base..base + n` of `cs` meet as they are
/// acquired in turn can have its slots counted.
pub open spec fn captures_fit(data: &GameData, cs: Seq<CreatureInstance>, base: int, party: Seq<u64>, n: int) -> bool {
    forall|i: int| 0 <= i < n ==> party_fits(data, cs.take(base + i), #[trigger] spawn_party(data, cs, party, base, i))
}

/// The captured cores can join `roster` one by one: each party they meet
/// on the way can have its slots counted.
pub open spec fn captures_can_join(data: &GameData, roster: &Roster, first_id: u64, captured: Seq<String>) -> bool {
    forall|cs: Seq<CreatureInstance>| #[trigger] capture_roster(cs, roster.creatures@, first_id, captured) ==> captures_fit(
        data,
        cs,
        roster.creatures@.len() as int,
        roster.party@,
        captured.len() as int,
    )
}

/// Adds one creature per captured species, party first where it fits.
#[verifier::loop_isolation(false)]
fn spawn_captures(profile: &mut Profile, data: &GameData, context: BattleContext, captured: &Vec<String>) -> (r: Vec<String>)
    requires
        old(profile).next_id() + captured@.len() < u64::MAX,
        forall|j: int| 0 <= j < captured@.len() ==> data.species@.contains_key((#[trigger] captured@[j])@),
        captures_can_join(data, &old(profile).roster, old(profile).next_id(), captured@),
    ensures
        texts(r@) == capture_notes(data, context, captured@),
        final(profile).roster.creatures@.take(old(profile).roster.creatures@.len() as int) == old(profile).roster.creatures@,
        captured_from(
            final(profile).roster.creatures@,
            old(profile).roster.creatures@.len() as int,
            old(profile).next_id(),
            captured@,
            context,
        ),
        final(profile).roster.party@ == spawn_party(
            data,
            final(profile).roster.creatures@,
            old(profile).roster.party@,
            old(profile).roster.creatures@.len() as int,
            captured@.len() as int,
        ),
        final(profile).next_id() == old(profile).next_id() + captured@.len(),
        final(profile).inventory == old(profile).inventory,
        final(profile).rider == old(profile).rider,
        profile_sound(old(profile), data) ==> profile_sound(final(profile), data),
{
    let ghost sound0 = profile_sound(&*profile, data);
    let ghost cs0 = profile.roster.creatures@;
    let ghost c0 = cs0.len() as int;
    let ghost party0 = profile.roster.party@;
    let mut notes: Vec<String> = Vec::new();
    let mut i: usize = 0;
    assert(cs0.take(c0) =~= cs0);
    while i < captured.len()
        invariant
            i <= captured@.len(),
            profile.roster.creatures@.len() == c0 + i,
            profile.roster.creatures@.take(c0) == cs0,
            captured_from(profile.roster.creatures@, c0, old(profile).next_id(), captured@.take(i as int), context),
            profile.roster.party@ == spawn_party(data, profile.roster.creatures@, party0, c0, i as int),
            profile.next_id() == old(profile).next_id() + i,
            profile.inventory == old(profile).inventory,
            profile.rider == old(profile).rider,
            sound0 == profile_sound(old(profile), data),
            sound0 ==> profile_sound(&*profile, data),
            captures_can_join(data, &old(profile).roster, old(profile).next_id(), captured@),
            old(profile).roster.creatures@ == cs0,
            old(profile).roster.party@ == party0,
            texts(notes@) == capture_notes(data, context, captured@.take(i as int)),
        decreases captured@.len() - i,
    {
        let species_id = &captured[i];
        let origin = match context {
            BattleContext::FactoryDismantle => CreatureOrigin::Freed { factory_id: "unknown".to_owned() },
            _ => CreatureOrigin::Wild,
        };
        let ghost cs_before = profile.roster.creatures@;
        let ghost party_before = profile.roster.party@;
        proof {
            // Extend the roster so far with stand-ins for the captures still
            // to come, to read off what the captures need at this step.
            let first_id = old(profile).next_id();
            let n = captured@.len() as int;
            let t = vstd::pervasive::arbitrary::<CreatureInstance>();
            let rest = Seq::new((n - i) as nat, |j: int| CreatureInstance {
                id: (first_id + i + j) as u64,
                species_id: captured@[i + j],
                ..t
            });
            let ext = cs_before + rest;
            assert forall|k: int| 0 <= k < c0 implies (#[trigger] ext[k]).id == cs0[k].id && ext[k].species_id == cs0[k].species_id by {
                assert(ext[k] == cs_before[k]);
                assert(cs_before.take(c0)[k] == cs_before[k]);
            }
            assert forall|j: int| 0 <= j < n implies (#[trigger] ext[c0 + j]).id == first_id + j && ext[c0 + j].species_id@ == captured@[j]@ by {
                if j < i {
                    assert(ext[c0 + j] == cs_before[c0 + j]);
                    assert(captured@.take(i as int)[j] == captured@[j]);
                } else {
                    assert(ext[c0 + j] == rest[j - i]);
                }
            }
            assert(capture_roster(ext, cs0, first_id, captured@));
            assert(captures_fit(data, ext, c0, party0, n));
            lemma_spawn_party_prefix(data, ext, cs_before, party0, c0, i as int);
            assert(ext.take(c0 + i) =~= cs_before);
            assert(party_fits(data, ext.take(c0 + i), spawn_party(data, ext, party0, c0, i as int)));
        }
        profile.spawn_creature(data, species_id.as_str(), origin);
        let name: &str = match data.species.get(species_id.as_str()) {
            Some(s) => s.name.as_str(),
            None => species_id.as_str(),
        };
        let note = match context {
            BattleContext::FactoryDismantle => concat2(name, " freed from its war-body"),
            _ => concat2(name, " subdued and befriended"),
        };
        assert(note@ == species_label(data, captured@[i as int]@) + if context == BattleContext::FactoryDismantle {
            " freed from its war-body"@
        } else {
            " subdued and befriended"@
        });
        let ghost notes_before = notes@;
        notes.push(note);
        proof {
            let cs = profile.roster.creatures@;
            assert(cs.drop_last() == cs_before);
            assert(cs.take(c0 + i) =~= cs_before);
            assert forall|k: int| 0 <= k < c0 + i implies #[trigger] cs[k] == cs_before[k] by {
                assert(cs[k] == cs.drop_last()[k]);
            }
            lemma_spawn_party_prefix(data, cs, cs_before, party0, c0, i as int);
            assert(cs.take(c0) =~= cs0) by {
                assert forall|k: int| 0 <= k < c0 implies cs.take(c0)[k] == cs0[k] by {
                    assert(cs[k] == cs_before[k]);
                    assert(cs_before.take(c0)[k] == cs0[k]);
                }
            }
            let ct = captured@.take(i + 1);
            assert(ct.drop_last() =~= captured@.take(i as int));
            assert forall|j: int| 0 <= j < ct.len() implies {
                let c = #[trigger] cs[c0 + j];
                &&& c.id == old(profile).next_id() + j
                &&& c.species_id@ == ct[j]@
                &&& c.nickname is None
                &&& c.loadout@.len() == 0
                &&& capture_origin(context, c.origin)
            } by {
                if j < i {
                    assert(cs[c0 + j] == cs_before[c0 + j]);
                    assert(captured@.take(i as int)[j] == ct[j]);
                }
            }
            assert(notes@.last()@ == capture_notes(data, context, ct)[i as int]);
            assert forall|k: int| 0 <= k < i implies #[trigger] texts(notes@)[k] == capture_notes(data, context, ct)[k] by {
                assert(texts(notes@)[k] == texts(notes_before)[k]);
                assert(capture_notes(data, context, captured@.take(i as int))[k] == capture_notes(data, context, ct)[k]);
            }
            assert(texts(notes@) =~= capture_notes(data, context, ct));
        }
        i = i + 1;
    }
    assert(captured@.take(captured@.len() as int) =~= captured@);
    notes
}

/// One notice per salvaged part that `data` defines, naming it.
pub open spec fn salvage_notes(data: &GameData, salvage: Seq<String>) -> Seq<Seq<char>>
    decreases salvage.len(),
{
    if salvage.len() == 0 {
        Seq::empty()
    } else {
        let rest = salvage_notes(data, salvage.drop_last());
        if data.graftware@.contains_key(salvage.last()@) {
            rest.push("Salvaged: "@ + data.graftware@[salvage.last()@].name@)
        } else {
            rest
        }
    }
}

/// Hands out one intact part per salvaged def id.
fn grant_salvage(profile: &mut Profile, data: &GameData, salvage: &Vec<String>) -> (r: Vec<String>)
    requires
        old(profile).next_id() + salvage@.len() < u64::MAX,
    ensures
        texts(r@) == salvage_notes(data, salvage@),
        final(profile).next_id() == old(profile).next_id() + salvage@.len(),
        final(profile).inventory.items@.take(old(profile).inventory.items@.len() as int) == old(profile).inventory.items@,
        granted_from(
            final(profile).inventory.items@,
            old(profile).inventory.items@.len() as int,
            old(profile).next_id(),
            salvage@,
        ),
        final(profile).inventory.scrip == old(profile).inventory.scrip,
        final(profile).inventory.consumables@ == old(profile).inventory.consumables@,
        final(profile).roster == old(profile).roster,
        final(profile).rider == old(profile).rider,
        old(profile).ids_fresh() ==> final(profile).ids_fresh(),
{
    let ghost base = old(profile).inventory.items@;
    let mut notes: Vec<String> = Vec::new();
    let mut i: usize = 0;
    assert(base.take(base.len() as int) =~= base);
    while i < salvage.len()
        invariant
            i <= salvage@.len(),
            old(profile).next_id() + salvage@.len() < u64::MAX,
            profile.next_id() == old(profile).next_id() + i,
            profile.inventory.items@.take(base.len() as int) == base,
            granted_from(profile.inventory.items@, base.len() as int, old(profile).next_id(), salvage@.take(i as int)),
            texts(notes@) == salvage_notes(data, salvage@.take(i as int)),
            profile.inventory.scrip == old(profile).inventory.scrip,
            profile.inventory.consumables@ == old(profile).inventory.consumables@,
            profile.roster == old(profile).roster,
            profile.rider == old(profile).rider,
            old(profile).ids_fresh() ==> profile.ids_fresh(),
        decreases salvage@.len() - i,
    {
        let ghost before = profile.inventory.items@;
        let ghost notes_before = notes@;
        profile.grant_graft(salvage[i].as_str(), GraftCondition::Intact);
        if let Some(g) = data.graftware.get(salvage[i].as_str()) {
            notes.push(concat2("Salvaged: ", g.name.as_str()));
        }
        proof {
            let gi = salvage@.take(i + 1);
            assert(gi.drop_last() =~= salvage@.take(i as int));
            assert(gi.last() == salvage@[i as int]);
            assert(profile.inventory.items@.take(base.len() as int) =~= base) by {
                assert forall|k: int| 0 <= k < base.len() implies profile.inventory.items@[k] == base[k] by {
                    assert(profile.inventory.items@[k] == profile.inventory.items@.drop_last()[k]);
                    assert(before.take(base.len() as int)[k] == base[k]);
                }
            }
            assert forall|j: int| 0 <= j < gi.len() implies {
                &&& (#[trigger] profile.inventory.items@[base.len() + j]).id == old(profile).next_id() + j
                &&& profile.inventory.items@[base.len() + j].def_id@ == gi[j]@
                &&& profile.inventory.items@[base.len() + j].condition == GraftCondition::Intact
            } by {
                if j < i {
                    assert(profile.inventory.items@[base.len() + j] == before[base.len() + j]);
                    assert(salvage@.take(i as int)[j] == gi[j]);
                }
            }
            assert(texts(notes@) =~= salvage_notes(data, gi)) by {
                if data.graftware@.contains_key(salvage@[i as int]@) {
                    assert(texts(notes@) =~= texts(notes_before).push(notes@.last()@));
                } else {
                    assert(notes@ == notes_before);
                }
            }
        }
        i = i + 1;
    }
    assert(salvage@.take(i as int) =~= salvage@);
    notes
}

/// The notices of a battle's outcome: captures, salvage and scrip for a
/// victory; the flight otherwise.
pub open spec fn outcome_notes(data: &GameData, context: BattleContext, outcome: BattleOutcome) -> Seq<Seq<char>> {
    match outcome {
        BattleOutcome::Victory(rw) => capture_notes(data, context, rw.captured_species@) + salvage_notes(
            data,
            rw.salvage@,
        ) + if rw.scrip > 0 {
            seq!["Earned "@ + int_text(rw.scrip as int) + " scrip"@]
        } else {
            Seq::empty()
        },
        BattleOutcome::Fled => seq!["Every core cracked \u{2014} you fled and escaped."@],
    }
}

fn append_notes(lines: &mut Vec<String>, more: Vec<String>)
    ensures
        texts(final(lines)@) == texts(old(lines)@) + texts(more@),
{
    let ghost before = lines@;
    let mut i: usize = 0;
    while i < more.len()
        invariant
            i <= more@.len(),
            texts(lines@) == texts(before) + texts(more@.take(i as int)),
        decreases more@.len() - i,
    {
        let ghost lines_before = lines@;
        lines.push(more[i].clone());
        assert(more@.take(i + 1) =~= more@.take(i as int).push(more@[i as int]));
        assert(texts(lines@) =~= texts(lines_before).push(more@[i as int]@));
        assert(texts(more@.take(i + 1)) =~= texts(more@.take(i as int)).push(more@[i as int]@));
        assert(texts(lines@) =~= texts(before) + texts(more@.take(i + 1)));
        i = i + 1;
    }
    assert(more@.take(more@.len() as int) =~= more@);
}

/// The roster and profile rules that every session keeps: fresh ids, a
/// well-formed roster, the party within its slot budget, and only known
/// species traveling.
pub open spec fn profile_sound(p: &Profile, data: &GameData) -> bool {
    &&& p.ids_fresh()
    &&& p.roster.wf()
    &&& p.roster.slots_spec(data) <= data.balance.party_slot_budget
    &&& p.roster.party_known(data)
}

/// The owned creatures that fielded player units stood for, in unit order.
pub open spec fn bonded_ids(units: Seq<FieldUnit>, cs: Seq<CreatureInstance>) -> Seq<u64>
    decreases units.len(),
{
    if units.len() == 0 {
        Seq::empty()
    } else {
        let rest = bonded_ids(units.drop_last(), cs);
        let u = units.last();
        match u.creature_id {
            Some(id) => if u.side == Side::Player && first_match(cs, creature_has_id(id)) is Some {
                rest.push(id)
            } else {
                rest
            },
            None => rest,
        }
    }
}

/// What resolving `battle` does to a session: `after` is `before` with the
/// battle's outcome applied, and `lines` are the notes it reports. An
/// unfinished battle changes nothing.
pub open spec fn resolution(before: GameSession, after: GameSession, data: &GameData, battle: &BattleRecord, lines: Seq<Seq<char>>) -> bool {
    &&& battle.outcome is None ==> lines.len() == 0 && after == before
    &&& battle.outcome matches Some(outcome) ==> {
        let o = before.profile;
        let f = after.profile;
        let losses = player_losses(battle.units@);
        let items1 = marked(o.inventory.items@, losses);
        let c0 = o.roster.creatures@.len() as int;
        &&& after.battles_fought == before.battles_fought + 1
        &&& f.inventory.consumables@ == battle.bag@
        &&& lines == repair_notes(data, o.inventory.items@, losses) + outcome_notes(data, battle.context, outcome)
        &&& f.inventory.items@.take(o.inventory.items@.len() as int) == items1
        &&& f.roster.creatures@.len() >= c0
        &&& forall|k: int| 0 <= k < c0 ==> pruned_from(#[trigger] f.roster.creatures@[k], o.roster.creatures@[k], items1)
        &&& f.rider == o.rider
        &&& match outcome {
            BattleOutcome::Victory(rw) => {
                let n = rw.captured_species@.len();
                &&& captured_from(f.roster.creatures@, c0, o.next_id(), rw.captured_species@, battle.context)
                &&& f.roster.party@ == spawn_party(data, f.roster.creatures@, o.roster.party@, c0, n as int)
                &&& granted_from(f.inventory.items@, o.inventory.items@.len() as int, (o.next_id() + n) as u64, rw.salvage@)
                &&& f.next_id() == o.next_id() + n + rw.salvage@.len()
                &&& f.inventory.scrip == o.inventory.scrip + if rw.scrip > 0 { rw.scrip } else { 0 }
            },
            BattleOutcome::Fled => {
                &&& f.roster.creatures@.len() == c0
                &&& f.roster.party@ == o.roster.party@
                &&& f.inventory.items@.len() == o.inventory.items@.len()
                &&& f.next_id() == o.next_id()
                &&& f.inventory.scrip == o.inventory.scrip
            },
        }
    }
    &&& profile_sound(&before.profile, data) ==> profile_sound(&after.profile, data)
    &&& after.quests == before.quests
    &&& after.journal == before.journal
    &&& after.story_flags == before.story_flags
    &&& after.world_state == before.world_state
    &&& after.steps == before.steps
    &&& after.location == before.location
    &&& after.pace == before.pace
}

/// A lost mount of one unit is among the unit's losses.
proof fn lemma_unit_loss_listed(mounts: Seq<FieldMount>, m: int)
    requires
        0 <= m < mounts.len(),
        mount_lost(mounts[m]),
    ensures
        occurs(unit_losses(mounts), mounts[m].item_id->0),
    decreases mounts.len(),
{
    let r = unit_losses(mounts);
    if m == mounts.len() - 1 {
        assert(r[r.len() - 1] == mounts[m].item_id->0);
    } else {
        assert(mounts.drop_last()[m] == mounts[m]);
        lemma_unit_loss_listed(mounts.drop_last(), m);
        let rest = unit_losses(mounts.drop_last());
        let j = choose|j: int| 0 <= j < rest.len() && rest[j] == mounts[m].item_id->0;
        assert(r[j] == rest[j]);
    }
}

/// A lost mount of a player unit is among the player's losses.
proof fn lemma_player_loss_listed(units: Seq<FieldUnit>, u: int, m: int)
    requires
        0 <= u < units.len(),
        units[u].side == Side::Player,
        0 <= m < units[u].mounts@.len(),
        mount_lost(units[u].mounts@[m]),
    ensures
        occurs(player_losses(units), units[u].mounts@[m].item_id->0),
    decreases units.len(),
{
    let x = units[u].mounts@[m].item_id->0;
    let r = player_losses(units);
    let rest = player_losses(units.drop_last());
    if u == units.len() - 1 {
        lemma_unit_loss_listed(units[u].mounts@, m);
        let l = unit_losses(units[u].mounts@);
        let j = choose|j: int| 0 <= j < l.len() && l[j] == x;
        assert(r[rest.len() + j] == l[j]);
    } else {
        assert(units.drop_last()[u] == units[u]);
        lemma_player_loss_listed(units.drop_last(), u, m);
        let j = choose|j: int| 0 <= j < rest.len() && rest[j] == x;
        assert(r[j] == rest[j]);
    }
}

/// A part that a player unit carried into battle and that was destroyed or
/// came off with a severed limb comes home damaged (the first part of the
/// inventory with its id, in place), and no creature keeps it mounted.
pub proof fn lost_parts_come_home_damaged(
    before: GameSession,
    after: GameSession,
    data: &GameData,
    battle: &BattleRecord,
    lines: Seq<Seq<char>>,
    u: int,
    m: int,
)
    requires
        resolution(before, after, data, battle, lines),
        battle.outcome is Some,
        0 <= u < battle.units@.len(),
        battle.units@[u].side == Side::Player,
        0 <= m < battle.units@[u].mounts@.len(),
        battle.units@[u].mounts@[m].item_id is Some,
        battle.units@[u].mounts@[m].destroyed || battle.units@[u].mounts@[m].detached,
    ensures
        forall|i: int|
            0 <= i < before.profile.inventory.items@.len()
                && before.profile.inventory.items@[i].id == battle.units@[u].mounts@[m].item_id->0
                && (forall|j: int| 0 <= j < i ==> before.profile.inventory.items@[j].id != battle.units@[u].mounts@[m].item_id->0)
                ==> #[trigger] after.profile.inventory.items@[i] == (GraftItem {
                    condition: GraftCondition::Damaged,
                    ..before.profile.inventory.items@[i]
                }),
        forall|k: int, a: int|
            0 <= k < after.profile.roster.creatures@.len() && 0 <= a < after.profile.roster.creatures@[k].loadout@.len()
                ==> (#[trigger] after.profile.roster.creatures@[k].loadout@[a]).item_id != battle.units@[u].mounts@[m].item_id->0,
{
    let id = battle.units@[u].mounts@[m].item_id->0;
    let old_items = before.profile.inventory.items@;
    let losses = player_losses(battle.units@);
    let items1 = marked(old_items, losses);
    lemma_player_loss_listed(battle.units@, u, m);
    lemma_marked_ids(old_items, losses, id);
    lemma_first_index_facts(old_items, item_has_id(id));
    assert forall|i: int|
        0 <= i < old_items.len() && old_items[i].id == id && (forall|j: int| 0 <= j < i ==> old_items[j].id != id)
        implies #[trigger] after.profile.inventory.items@[i] == (GraftItem { condition: GraftCondition::Damaged, ..old_items[i] }) by {
        assert forall|j: int| 0 <= j < i implies !item_has_id(id)(#[trigger] old_items[j]) by {}
        crate::collections::lemma_first_index_at(old_items, item_has_id(id), i);
        assert(after.profile.inventory.items@.take(old_items.len() as int)[i] == after.profile.inventory.items@[i]);
    }
    let c0 = before.profile.roster.creatures@.len() as int;
    assert forall|k: int, a: int|
        0 <= k < after.profile.roster.creatures@.len() && 0 <= a < after.profile.roster.creatures@[k].loadout@.len()
        implies (#[trigger] after.profile.roster.creatures@[k].loadout@[a]).item_id != id by {
        let f = after.profile.roster.creatures@;
        if k < c0 {
            let bc = before.profile.roster.creatures@[k];
            assert(pruned_from(f[k], bc, items1));
            let x = f[k].loadout@[a];
            assert(occurs(f[k].loadout@, x));
            crate::collections::lemma_keep_occurs(bc.loadout@, assignment_backed(items1), x);
            if x.item_id == id {
                crate::collections::lemma_first_index_facts(items1, item_has_id(id));
            }
        } else {
            match battle.outcome {
                Some(BattleOutcome::Victory(rw)) => {
                    assert(f[c0 + (k - c0)].loadout@.len() == 0);
                },
                _ => {},
            }
        }
    }
}

/// Call exactly once, after the battle's outcome is set. The summary names
/// the creatures whose bond grows; the caller grows it, since the bond level
/// is an `f32` that these rules carry without reading.
#[verifier::loop_isolation(false)]
pub fn apply(session: &mut GameSession, data: &GameData, battle: &BattleRecord) -> (r: ResolutionSummary)
    requires
        battle.outcome is Some ==> old(session).battles_fought < u32::MAX,
        battle.outcome matches Some(BattleOutcome::Victory(rw)) ==> {
            &&& old(session).profile.next_id() + rw.captured_species@.len() + rw.salvage@.len() < u64::MAX
            &&& forall|j: int| 0 <= j < rw.captured_species@.len() ==> data.species@.contains_key(
                (#[trigger] rw.captured_species@[j])@,
            )
            &&& rw.scrip > 0 ==> old(session).profile.inventory.scrip + rw.scrip <= i64::MAX
            &&& captures_can_join(data, &old(session).profile.roster, old(session).profile.next_id(), rw.captured_species@)
        },
    ensures
        resolution(*old(session), *final(session), data, battle, texts(r.lines@)),
        r.bonded@ == if battle.outcome is Some {
            bonded_ids(battle.units@, old(session).profile.roster.creatures@)
        } else {
            Seq::<u64>::empty()
        },
{
    let mut summary = ResolutionSummary { lines: Vec::new(), bonded: Vec::new() };
    let outcome = match &battle.outcome {
        Some(o) => o,
        None => {
            return summary;
        },
    };
    session.battles_fought = session.battles_fought + 1;
    // Fighting together deepens the bond, win or lose.
    let mut u: usize = 0;
    while u < battle.units.len()
        invariant
            u <= battle.units@.len(),
            session.profile.roster.creatures@ == old(session).profile.roster.creatures@,
            summary.bonded@ == bonded_ids(battle.units@.take(u as int), old(session).profile.roster.creatures@),
            summary.lines@.len() == 0,
        decreases battle.units@.len() - u,
    {
        assert(battle.units@.take(u + 1).drop_last() =~= battle.units@.take(u as int));
        let unit = &battle.units[u];
        if unit.side == Side::Player {
            match unit.creature_id {
                Some(id) => {
                    if session.profile.roster.creature(id).is_some() {
                        summary.bonded.push(id);
                    }
                },
                None => {},
            }
        }
        u = u + 1;
    }
    assert(battle.units@.take(battle.units@.len() as int) =~= battle.units@);
    // Consumables spent in the fight (potions, loaded ammo) are gone for good.
    session.profile.inventory.consumables = battle.bag.clone();

    // Player graftware that was destroyed or detached in the fight comes home
    // Damaged — repairable at a settlement, never free.
    let ghost o = old(session).profile;
    let ghost losses = player_losses(battle.units@);
    let repairs = mark_losses(&mut session.profile.inventory, data, &battle.units);
    append_notes(&mut summary.lines, repairs);

    // Loadouts drop references to now-damaged parts.
    let inventory = session.profile.inventory.clone();
    let ghost cs_before = session.profile.roster.creatures@;
    prune_all(&mut session.profile.roster, &inventory);
    proof {
        let items1 = marked(o.inventory.items@, losses);
        let cs = session.profile.roster.creatures@;
        lemma_marked_ids(o.inventory.items@, losses, 0);
        assert forall|k: int| 0 <= k < cs.len() implies (#[trigger] o.roster.creatures@[k]).id == cs[k].id
            && o.roster.creatures@[k].species_id == cs[k].species_id by {
            assert(pruned_from(cs[k], o.roster.creatures@[k], items1));
        }
        lemma_roster_same_cores(data, &o.roster, &session.profile.roster);
        if o.ids_fresh() {
            assert forall|i: int| 0 <= i < session.profile.inventory.items@.len() implies (#[trigger] session.profile.inventory.items@[i]).id
                < session.profile.next_id() by {
                assert(session.profile.inventory.items@[i].id == o.inventory.items@[i].id);
            }
            assert forall|i: int| 0 <= i < cs.len() implies (#[trigger] cs[i]).id < session.profile.next_id() by {
                assert(o.roster.creatures@[i].id == cs[i].id);
            }
        }
    }

    match outcome {
        BattleOutcome::Victory(rewards) => {
            proof {
                let cs = session.profile.roster.creatures@;
                let first_id = session.profile.next_id();
                let captured = rewards.captured_species@;
                assert forall|x: Seq<CreatureInstance>| #[trigger] capture_roster(x, cs, first_id, captured) implies captures_fit(
                    data,
                    x,
                    cs.len() as int,
                    session.profile.roster.party@,
                    captured.len() as int,
                ) by {
                    assert forall|k: int| 0 <= k < o.roster.creatures@.len() implies (#[trigger] x[k]).id == o.roster.creatures@[k].id
                        && x[k].species_id == o.roster.creatures@[k].species_id by {
                        assert(pruned_from(cs[k], o.roster.creatures@[k], marked(o.inventory.items@, losses)));
                    }
                    assert(capture_roster(x, o.roster.creatures@, o.next_id(), captured));
                }
            }
            let captures = spawn_captures(&mut session.profile, data, battle.context, &rewards.captured_species);
            append_notes(&mut summary.lines, captures);
            let salvaged = grant_salvage(&mut session.profile, data, &rewards.salvage);
            append_notes(&mut summary.lines, salvaged);
            if rewards.scrip > 0 {
                session.profile.inventory.scrip = session.profile.inventory.scrip + rewards.scrip;
                let mut earned = "Earned ".to_owned();
                push_i64(&mut earned, rewards.scrip);
                push_str(&mut earned, " scrip");
                let ghost before = summary.lines@;
                summary.lines.push(earned);
                assert(texts(summary.lines@) =~= texts(before).push("Earned "@ + int_text(rewards.scrip as int) + " scrip"@));
            }
        },
        BattleOutcome::Fled => {
            let ghost before = summary.lines@;
            summary.lines.push("Every core cracked \u{2014} you fled and escaped.".to_owned());
            assert(texts(summary.lines@) =~= texts(before).push("Every core cracked \u{2014} you fled and escaped."@));
        },
    }
    proof {
        let f = session.profile;
        assert(f.inventory.items@.take(o.inventory.items@.len() as int) =~= marked(o.inventory.items@, losses));
        assert(texts(summary.lines@) =~= repair_notes(data, o.inventory.items@, losses) + outcome_notes(data, battle.context, *outcome));
    }
    summary
}

} // verus!
