//! Overworld traversal rules: grid movement, warps, settlement doors, and
//! what facing a person, a sealed door or a factory heart leads to, and the
//! word that a region has relapsed. Camera and dialogue presentation, relapse
//! drift and the dice are the game loop's.

use crate::collections::{first_index, first_match};
use crate::combat::unit::UnitSpec;
use crate::combat::{Side, Stance};
use crate::text::{concat3, nat_text, push_str, push_u64};
use crate::data::world::{
    door_at_pos, npc_at_pos, same_rule, warp_at_pos, DialogueRule, DoorTarget, EncounterEntry, MapDef, TileKind,
};
use crate::data::validation::world::{map_named, open_at};
use crate::data::GameData;
use crate::model::story::{rule_fires, select_dialogue};
use crate::state::GameSession;
use vstd::prelude::*;

verus! {

/// A conversation offered to the player: who speaks, what they say, and the
/// rule whose effects apply when it closes.
pub struct DialogueOffer {
    pub name: String,
    pub lines: Vec<String>,
    pub on_close: Option<DialogueRule>,
}

pub enum TraversalEvent {
    Continue,
    OpenSettlement(DoorTarget),
    StartEncounter(Vec<UnitSpec>),
    HeartInteract(String),
}

pub struct TraversalOutcome {
    pub event: TraversalEvent,
    pub dialogue: Option<DialogueOffer>,
}

/// The offer a person makes when spoken to in `session`: the first rule that
/// fires, else their plain lines, else nothing.
pub open spec fn offer_from(npc: crate::data::world::NpcDef, session: &GameSession, d: Option<DialogueOffer>) -> bool {
    match first_index(npc.dialogue@, rule_fires(session)) {
        Some(i) => d matches Some(o) && {
            &&& o.name@ == npc.name@
            &&& o.lines@ == npc.dialogue@[i].lines@
            &&& o.on_close matches Some(rule) && same_rule(rule, npc.dialogue@[i])
        },
        None => if npc.lines@.len() == 0 {
            d is None
        } else {
            d matches Some(o) && o.name@ == npc.name@ && o.lines@ == npc.lines@ && o.on_close is None
        },
    }
}

/// The first of the two lines a sealed gestarium door answers with.
pub open spec fn sealed_first() -> Seq<char> {
    "Warm air breathes through the seam. Deep in the hum of the earth, something is still growing."@
}

/// The second of the two lines a sealed gestarium door answers with.
pub open spec fn sealed_second() -> Seq<char> {
    "The doors do not answer. Not yet."@
}

fn copy_lines(lines: &[String]) -> (r: Vec<String>)
    ensures
        r@ == lines@,
{
    let mut r: Vec<String> = Vec::new();
    let mut i: usize = 0;
    while i < lines.len()
        invariant
            i <= lines@.len(),
            r@ == lines@.take(i as int),
        decreases lines@.len() - i,
    {
        r.push(lines[i].clone());
        assert(r@ =~= lines@.take(i + 1));
        i = i + 1;
    }
    assert(lines@.take(lines@.len() as int) =~= lines@);
    r
}

fn quiet() -> (r: TraversalOutcome)
    ensures
        r.event is Continue,
        r.dialogue is None,
{
    TraversalOutcome { event: TraversalEvent::Continue, dialogue: None }
}

/// The rider faces the tile at `facing` from where they stand and acts on it:
/// talks to whoever stands there, passes an open gestarium door or hears a
/// sealed one, or reaches a factory heart.
pub fn interact(data: &GameData, session: &mut GameSession, facing: (i32, i32)) -> (r: TraversalOutcome)
    requires
        i32::MIN <= old(session).location.x + facing.0 <= i32::MAX,
        i32::MIN <= old(session).location.y + facing.1 <= i32::MAX,
    ensures
        match map_named(data, old(session).location.map_id@) {
            None => r.event is Continue && r.dialogue is None && *final(session) == *old(session),
            Some(m) => {
                let fx = (old(session).location.x + facing.0) as i32;
                let fy = (old(session).location.y + facing.1) as i32;
                match first_match(m.npcs@, npc_at_pos(fx, fy)) {
                    Some(npc) => r.event is Continue && offer_from(npc, old(session), r.dialogue) && *final(session)
                        == *old(session),
                    None => if m.tile_at(fx, fy) == TileKind::GestariumDoor {
                        match first_match(m.warps@, warp_at_pos(fx, fy)) {
                            Some(w) => {
                                &&& r.event is Continue
                                &&& r.dialogue is None
                                &&& final(session).location.map_id@ == w.to_map@
                                &&& final(session).location.x == w.to_x
                                &&& final(session).location.y == w.to_y
                                &&& final(session).profile == old(session).profile
                                &&& final(session).steps == old(session).steps
                                &&& final(session).world_state == old(session).world_state
                                &&& final(session).story_flags == old(session).story_flags
                                &&& final(session).quests == old(session).quests
                                &&& final(session).journal == old(session).journal
                                &&& final(session).pace == old(session).pace
                                &&& final(session).battles_fought == old(session).battles_fought
                            },
                            None => {
                                &&& r.event is Continue
                                &&& r.dialogue matches Some(o) && {
                                    &&& o.name@ == "Sealed Doors"@
                                    &&& o.lines@.len() == 2
                                    &&& o.lines@[0]@ == sealed_first()
                                    &&& o.lines@[1]@ == sealed_second()
                                    &&& o.on_close is None
                                }
                                &&& *final(session) == *old(session)
                            },
                        }
                    } else if m.tile_at(fx, fy) == TileKind::Heart {
                        &&& match m.factory_id {
                            Some(id) => r.event matches TraversalEvent::HeartInteract(f) && f@ == id@,
                            None => r.event is Continue,
                        }
                        &&& r.dialogue is None
                        &&& *final(session) == *old(session)
                    } else {
                        r.event is Continue && r.dialogue is None && *final(session) == *old(session)
                    },
                }
            },
        },
{
    let map = match data.world.map(session.location.map_id.as_str()) {
        Some(m) => m,
        None => {
            return quiet();
        },
    };
    let fx = session.location.x + facing.0;
    let fy = session.location.y + facing.1;
    if let Some(npc) = map.npc_at(fx, fy) {
        let dialogue = match select_dialogue(npc, session) {
            Some(selection) => Some(
                DialogueOffer {
                    name: npc.name.clone(),
                    lines: copy_lines(selection.lines),
                    on_close: match selection.rule {
                        Some(rule) => Some(rule.clone()),
                        None => None,
                    },
                },
            ),
            None => None,
        };
        return TraversalOutcome { event: TraversalEvent::Continue, dialogue };
    }
    match map.tile(fx, fy) {
        TileKind::GestariumDoor => {
            if let Some(warp) = map.warp_at(fx, fy) {
                session.location.map_id = warp.to_map.clone();
                session.location.x = warp.to_x;
                session.location.y = warp.to_y;
                quiet()
            } else {
                let mut lines: Vec<String> = Vec::new();
                lines.push(
                    "Warm air breathes through the seam. Deep in the hum of the earth, something is still growing.".to_owned(),
                );
                lines.push("The doors do not answer. Not yet.".to_owned());
                TraversalOutcome {
                    event: TraversalEvent::Continue,
                    dialogue: Some(DialogueOffer { name: "Sealed Doors".to_owned(), lines, on_close: None }),
                }
            }
        },
        TileKind::Heart => match &map.factory_id {
            Some(id) => TraversalOutcome { event: TraversalEvent::HeartInteract(id.clone()), dialogue: None },
            None => quiet(),
        },
        _ => quiet(),
    }
}

/// What one step on the overworld did.
pub enum StepOutcome {
    /// Blocked (or no map underfoot): the rider stays put.
    Blocked,
    /// Stepped onto a warp and arrived at its destination.
    Warped,
    /// Stepped onto a settlement door: open this facility.
    Door(DoorTarget),
    /// Stepped onto an ordinary tile; `wild` when encounters can spring there.
    Walked { wild: bool },
}

/// Whether the step `direction` from `(x, y)` on `m` is refused: the target
/// cannot be stood on, or it is a diagonal squeezing between two blocked
/// tiles.
pub open spec fn step_blocked(m: MapDef, x: i32, y: i32, direction: (i32, i32)) -> bool {
    let nx = (x + direction.0) as i32;
    let ny = (y + direction.1) as i32;
    let cut_corner = direction.0 != 0 && direction.1 != 0 && !open_at(m, nx, y) && !open_at(m, x, ny);
    !open_at(m, nx, ny) || cut_corner
}

/// Moves the rider one tile in `direction` when the map allows it, counting
/// the step, then follows a warp or reports the door or ground stepped on.
pub fn step(data: &GameData, session: &mut GameSession, direction: (i32, i32)) -> (r: StepOutcome)
    requires
        i32::MIN <= old(session).location.x + direction.0 <= i32::MAX,
        i32::MIN <= old(session).location.y + direction.1 <= i32::MAX,
        old(session).steps < u64::MAX,
    ensures
        !(r is Blocked) && !(r is Warped) ==> (map_named(data, old(session).location.map_id@) matches Some(m) && {
            let t = m.tile_at(final(session).location.x, final(session).location.y);
            &&& final(session).location.map_id == old(session).location.map_id
            &&& final(session).location.x == old(session).location.x + direction.0
            &&& final(session).location.y == old(session).location.y + direction.1
            &&& !(t is Tree || t is Water || t is Rock || t is Vat || t is Heart)
            &&& forall|i: int| 0 <= i < m.npcs@.len() ==> !((#[trigger] m.npcs@[i]).x == final(session).location.x
                && m.npcs@[i].y == final(session).location.y)
        }),
        match map_named(data, old(session).location.map_id@) {
            None => r is Blocked && *final(session) == *old(session),
            Some(m) => {
                let x = old(session).location.x;
                let y = old(session).location.y;
                let nx = (x + direction.0) as i32;
                let ny = (y + direction.1) as i32;
                if step_blocked(m, x, y, direction) {
                    r is Blocked && *final(session) == *old(session)
                } else {
                    &&& final(session).steps == old(session).steps + 1
                    &&& final(session).profile == old(session).profile
                    &&& final(session).world_state == old(session).world_state
                    &&& final(session).story_flags == old(session).story_flags
                    &&& final(session).quests == old(session).quests
                    &&& final(session).journal == old(session).journal
                    &&& final(session).pace == old(session).pace
                    &&& final(session).battles_fought == old(session).battles_fought
                    &&& match first_match(m.warps@, warp_at_pos(nx, ny)) {
                        Some(w) => {
                            &&& r is Warped
                            &&& final(session).location.map_id@ == w.to_map@
                            &&& final(session).location.x == w.to_x
                            &&& final(session).location.y == w.to_y
                        },
                        None => {
                            &&& final(session).location.map_id == old(session).location.map_id
                            &&& final(session).location.x == nx
                            &&& final(session).location.y == ny
                            &&& if m.tile_at(nx, ny) == TileKind::SettlementDoor {
                                r == StepOutcome::Door(
                                    match first_match(m.doors@, door_at_pos(nx, ny)) {
                                        Some(d) => d.target,
                                        None => DoorTarget::Hub,
                                    },
                                )
                            } else {
                                r == StepOutcome::Walked { wild: m.tile_at(nx, ny) is Grass || m.tile_at(nx, ny) is VatSpill }
                            }
                        },
                    }
                }
            },
        },
{
    let map = match data.world.map(session.location.map_id.as_str()) {
        Some(m) => m,
        None => {
            return StepOutcome::Blocked;
        },
    };
    let x = session.location.x;
    let y = session.location.y;
    let nx = x + direction.0;
    let ny = y + direction.1;
    let cut_corner = direction.0 != 0 && direction.1 != 0 && !map.walkable(nx, y) && !map.walkable(x, ny);
    if !map.walkable(nx, ny) || cut_corner {
        return StepOutcome::Blocked;
    }
    session.location.x = nx;
    session.location.y = ny;
    session.steps = session.steps + 1;
    if let Some(warp) = map.warp_at(nx, ny) {
        session.location.map_id = warp.to_map.clone();
        session.location.x = warp.to_x;
        session.location.y = warp.to_y;
        return StepOutcome::Warped;
    }
    let tile = map.tile(nx, ny);
    if tile == TileKind::SettlementDoor {
        let target = match map.door_at(nx, ny) {
            Some(d) => d.target,
            None => DoorTarget::Hub,
        };
        return StepOutcome::Door(target);
    }
    StepOutcome::Walked { wild: tile.encounter_prone() }
}

/// The total weight of an encounter table.
pub open spec fn weight_total(es: Seq<EncounterEntry>) -> nat
    decreases es.len(),
{
    if es.len() == 0 {
        0
    } else {
        weight_total(es.drop_last()) + es.last().weight as nat
    }
}

/// The entry a roll lands on: walking the table in order, the first entry
/// whose weight exceeds what is left of the roll.
pub open spec fn entry_for_roll(es: Seq<EncounterEntry>, roll: int) -> Option<int>
    decreases es.len(),
{
    if es.len() == 0 {
        None
    } else if roll < es[0].weight {
        Some(0)
    } else {
        match entry_for_roll(es.drop_first(), roll - es[0].weight) {
            Some(i) => Some(i + 1),
            None => None,
        }
    }
}

proof fn lemma_weight_total_first(es: Seq<EncounterEntry>)
    requires
        es.len() > 0,
    ensures
        weight_total(es) == es[0].weight + weight_total(es.drop_first()),
    decreases es.len(),
{
    if es.len() > 1 {
        lemma_weight_total_first(es.drop_last());
        assert(es.drop_last().drop_first() =~= es.drop_first().drop_last());
        assert(es.drop_first().last() == es.last());
        assert(es.drop_last()[0] == es[0]);
        assert(weight_total(es) == weight_total(es.drop_last()) + es.last().weight);
        assert(weight_total(es.drop_first()) == weight_total(es.drop_first().drop_last()) + es.drop_first().last().weight);
    } else {
        assert(weight_total(es.drop_last()) == 0);
        assert(weight_total(es.drop_first()) == 0);
        assert(es.drop_last().len() == 0);
        assert(es.drop_first().len() == 0);
        assert(es.last() == es[0]);
    }
}

/// A roll below the table's total lands on an entry of positive weight,
/// the one whose band of the running total holds the roll: the weights
/// before it sum to at most the roll, and with its own weight to more.
pub proof fn lemma_roll_lands(es: Seq<EncounterEntry>, roll: int)
    requires
        0 <= roll < weight_total(es),
    ensures
        entry_for_roll(es, roll) matches Some(i) && 0 <= i < es.len() && es[i].weight > 0
            && weight_total(es.take(i)) <= roll < weight_total(es.take(i)) + es[i].weight,
    decreases es.len(),
{
    lemma_weight_total_first(es);
    if roll >= es[0].weight {
        lemma_roll_lands(es.drop_first(), roll - es[0].weight);
        let i = entry_for_roll(es.drop_first(), roll - es[0].weight)->0;
        assert(es[i + 1] == es.drop_first()[i]);
        let t = es.take(i + 1);
        lemma_weight_total_first(t);
        assert(t.drop_first() =~= es.drop_first().take(i));
        assert(t[0] == es[0]);
    } else {
        assert(es.take(0).len() == 0);
    }
}

/// Picks the encounter entry of `map` for a random draw: the draw modulo
/// the table's total weight, walked through the table; nothing when the
/// table weighs nothing.
pub fn pick_encounter(map: &MapDef, draw: u64) -> (r: Option<usize>)
    requires
        weight_total(map.encounters@) <= u32::MAX,
    ensures
        weight_total(map.encounters@) == 0 ==> r is None,
        weight_total(map.encounters@) > 0 ==> {
            &&& r matches Some(i) && entry_for_roll(map.encounters@, (draw % weight_total(map.encounters@) as u64) as int)
                == Some(i as int)
            &&& map.encounters@[r->0 as int].weight > 0
            &&& weight_total(map.encounters@.take(r->0 as int)) <= ((draw % (weight_total(map.encounters@) as u64)) as int)
            &&& ((draw % (weight_total(map.encounters@) as u64)) as int) < weight_total(map.encounters@.take(r->0 as int))
                + map.encounters@[r->0 as int].weight
        },
{
    let es = &map.encounters;
    let mut total: u32 = 0;
    let mut i: usize = 0;
    while i < es.len()
        invariant
            i <= es@.len(),
            es@ == map.encounters@,
            total == weight_total(es@.take(i as int)),
            weight_total(es@) <= u32::MAX,
        decreases es@.len() - i,
    {
        assert(es@.take(i + 1).drop_last() =~= es@.take(i as int));
        proof {
            lemma_weight_total_prefix(es@, i + 1);
        }
        total = total + es[i].weight;
        i = i + 1;
    }
    assert(es@.take(i as int) =~= es@);
    if total == 0 {
        return None;
    }
    let mut roll: u32 = (draw % (total as u64)) as u32;
    let ghost start = roll as int;
    proof {
        lemma_roll_lands(es@, start);
    }
    let mut j: usize = 0;
    assert(es@.skip(0) =~= es@);
    while j < es.len()
        invariant
            j <= es@.len(),
            es@ == map.encounters@,
            0 <= roll,
            weight_total(es@) > 0,
            start == (draw % weight_total(es@) as u64) as int,
            entry_for_roll(es@, start) matches Some(i) && 0 <= i < es@.len() && es@[i].weight > 0
                && weight_total(es@.take(i)) <= start < weight_total(es@.take(i)) + es@[i].weight,
            entry_for_roll(es@, start) == match entry_for_roll(es@.skip(j as int), roll as int) {
                Some(k) => Some(k + j),
                None => None::<int>,
            },
            entry_for_roll(es@.skip(j as int), roll as int) is Some,
        decreases es@.len() - j,
    {
        assert(es@.skip(j as int)[0] == es@[j as int]);
        if roll < es[j].weight {
            return Some(j);
        }
        roll = roll - es[j].weight;
        assert(es@.skip(j as int).drop_first() =~= es@.skip(j + 1));
        j = j + 1;
    }
    proof {
        assert(es@.skip(j as int).len() == 0);
    }
    None
}

proof fn lemma_weight_total_prefix(es: Seq<EncounterEntry>, i: int)
    requires
        0 <= i <= es.len(),
    ensures
        weight_total(es.take(i)) <= weight_total(es),
    decreases es.len(),
{
    if i < es.len() {
        assert(es.drop_last().take(i) =~= es.take(i));
        lemma_weight_total_prefix(es.drop_last(), i);
    } else {
        assert(es.take(i) =~= es);
    }
}

/// The name of unit `i` of a pack of `count` of species `name`: "wild" or
/// "war-unit", the species, and a number when the pack has more than one.
pub open spec fn pack_name(armed: bool, name: Seq<char>, count: u32, i: int) -> Seq<char> {
    let head = (if armed { "war-unit"@ } else { "wild"@ }) + " "@ + name;
    if count > 1 {
        head + " "@ + nat_text((i + 1) as nat)
    } else {
        head
    }
}

/// The pack an encounter entry fields: `count` enemy units of its species,
/// named by `pack_name`, each armed with its outfit from `outfits` when the
/// pack is `armed` (bare otherwise). Nothing when the species is unknown.
pub fn encounter_units(
    data: &GameData,
    entry: &EncounterEntry,
    count: u32,
    armed: bool,
    outfits: &Vec<Vec<(String, usize, String, Option<u64>)>>,
) -> (r: Option<Vec<UnitSpec>>)
    requires
        armed ==> outfits@.len() >= count,
    ensures
        !data.species@.contains_key(entry.species@) ==> r is None,
        data.species@.contains_key(entry.species@) ==> (r matches Some(units) && {
            &&& units@.len() == count
            &&& forall|i: int| 0 <= i < count ==> {
                let u = #[trigger] units@[i];
                &&& u.species_id@ == entry.species@
                &&& u.name@ == pack_name(armed, data.species@[entry.species@].name@, count, i)
                &&& u.side == Side::Enemy
                &&& u.creature_id is None
                &&& u.bond_bits == 0
                &&& u.stance == Stance::Aggressive
                &&& if armed {
                    u.grafts@ == outfits@[i]@
                } else {
                    u.grafts@.len() == 0
                }
            }
        }),
{
    let species = match data.species.get(entry.species.as_str()) {
        Some(s) => s,
        None => {
            return None;
        },
    };
    let mut units: Vec<UnitSpec> = Vec::new();
    let mut i: u32 = 0;
    while i < count
        invariant
            i <= count,
            armed ==> outfits@.len() >= count,
            *species == data.species@[entry.species@],
            units@.len() == i,
            forall|k: int| 0 <= k < i ==> {
                let u = #[trigger] units@[k];
                &&& u.species_id@ == entry.species@
                &&& u.name@ == pack_name(armed, species.name@, count, k)
                &&& u.side == Side::Enemy
                &&& u.creature_id is None
                &&& u.bond_bits == 0
                &&& u.stance == Stance::Aggressive
                &&& if armed {
                    u.grafts@ == outfits@[k]@
                } else {
                    u.grafts@.len() == 0
                }
            },
        decreases count - i,
    {
        let mut name = if armed {
            "war-unit".to_owned()
        } else {
            "wild".to_owned()
        };
        push_str(&mut name, " ");
        push_str(&mut name, species.name.as_str());
        if count > 1 {
            push_str(&mut name, " ");
            push_u64(&mut name, (i + 1) as u64);
        }
        let grafts = if armed {
            copy_outfit(&outfits[i as usize])
        } else {
            Vec::new()
        };
        units.push(UnitSpec {
            species_id: entry.species.clone(),
            name,
            side: Side::Enemy,
            creature_id: None,
            bond_bits: 0,
            stance: Stance::Aggressive,
            grafts,
        });
        i = i + 1;
    }
    Some(units)
}

fn copy_outfit(v: &Vec<(String, usize, String, Option<u64>)>) -> (r: Vec<(String, usize, String, Option<u64>)>)
    ensures
        r@ == v@,
{
    let mut r: Vec<(String, usize, String, Option<u64>)> = Vec::new();
    let mut i: usize = 0;
    while i < v.len()
        invariant
            i <= v@.len(),
            r@ == v@.take(i as int),
        decreases v@.len() - i,
    {
        let g = &v[i];
        r.push((g.0.clone(), g.1, g.2.clone(), g.3));
        assert(r@ =~= v@.take(i + 1));
        i = i + 1;
    }
    assert(v@.take(v@.len() as int) =~= v@);
    r
}

/// The seed of the overworld dice for a session: fixed by the steps taken
/// and the battles fought, so a walk replays the same from a save.
pub fn traversal_seed(steps: u64, battles_fought: u32) -> (r: u64)
    ensures
        r == 0x9E37_79B9_7F4A_7C15u64 ^ (((steps * 0x2545_F491_4F6C_DD1Du64) % 0x1_0000_0000_0000_0000) as u64) ^ (battles_fought as u64),
{
    0x9E37_79B9_7F4A_7C15u64 ^ steps.wrapping_mul(0x2545_F491_4F6C_DD1D) ^ battles_fought as u64
}

/// The lines of the rumour that a revived region has relapsed, around the
/// factory named `name`.
pub open spec fn relapse_lines(name: Seq<char>) -> Seq<Seq<char>> {
    seq![
        "Travellers say the land around "@ + name + " is wrong again. Grafted shapes drilling in the fields you brought back to life."@,
        "You remember planting that seed. Someone is watering it with the old poison."@,
        "The heart will have a new keeper. Go and meet what you made possible."@,
    ]
}

/// The word on the road when factory `factory_id`'s region relapses: told
/// by no one in particular, with nothing to apply when it closes.
pub fn relapse_word(data: &GameData, factory_id: &str) -> (r: DialogueOffer)
    ensures
        r.name@ == "Word on the road"@,
        r.lines@.map_values(|l: String| l@) == relapse_lines(
            if data.factories@.contains_key(factory_id@) {
                data.factories@[factory_id@].name@
            } else {
                factory_id@
            },
        ),
        r.on_close is None,
{
    let name: &str = match data.factories.get(factory_id) {
        Some(f) => f.name.as_str(),
        None => factory_id,
    };
    let mut lines: Vec<String> = Vec::new();
    lines.push(concat3(
        "Travellers say the land around ",
        name,
        " is wrong again. Grafted shapes drilling in the fields you brought back to life.",
    ));
    lines.push("You remember planting that seed. Someone is watering it with the old poison.".to_owned());
    lines.push("The heart will have a new keeper. Go and meet what you made possible.".to_owned());
    let r = DialogueOffer { name: "Word on the road".to_owned(), lines, on_close: None };
    assert(r.lines@.map_values(|l: String| l@) =~= relapse_lines(name@));
    r
}

} // verus!
