//! Checks on the world: regions, the start map, and every map's rows,
//! spawn, warps, doors, encounters and people.

use crate::collections::{first_match, names_contain};
use crate::data::validation::{coordinate_problem, first_of, lemma_scan_found, lemma_scan_none, map_coordinate, outcome, scan};
use crate::data::world::{
    map_has_id, region_has_id, tile_of_char, DialogueCond, DialogueRule, MapDef, NpcDef, RegionDef, TileKind,
};
use crate::data::GameData;
use crate::text::{blank, char_count, concat3, is_blank, push_str, str_eq};
use vstd::prelude::*;

verus! {

/// The common head of every world message about map `id`.
pub open spec fn map_says(id: Seq<char>, tail: Seq<char>) -> Seq<char> {
    "content validation: map '"@ + id + tail
}

/// The common head of every world message about person `id`.
pub open spec fn npc_says(id: Seq<char>, tail: Seq<char>) -> Seq<char> {
    "content validation: NPC '"@ + id + tail
}

/// The map with this id, when the world has one.
pub open spec fn map_named(data: &GameData, id: Seq<char>) -> Option<MapDef> {
    first_match(data.world.maps@, map_has_id(id))
}

/// Whether an earlier region than region `i` has its id.
pub open spec fn region_seen(rs: Seq<RegionDef>, i: int) -> bool {
    exists|j: int| 0 <= j < i && (#[trigger] rs[j]).id@ == rs[i].id@
}

/// The problem of region `i`: an empty or repeated id, a tier outside
/// 1..=4, or an unknown factory.
pub open spec fn region_problem(data: &GameData) -> spec_fn(int) -> Option<Seq<char>> {
    |i: int|
        {
            let r = data.world.regions@[i];
            if blank(r.id@) || region_seen(data.world.regions@, i) {
                Some("content validation: duplicate or empty region id '"@ + r.id@ + "'"@)
            } else if !(1 <= r.tier <= 4) || !data.factories@.contains_key(r.gestarium_id@) {
                Some("content validation: region '"@ + r.id@ + "' has invalid tier or factory '"@ + r.gestarium_id@ + "'"@)
            } else {
                None
            }
        }
}

/// Whether an earlier map than map `i` has its id.
pub open spec fn map_seen(ms: Seq<MapDef>, i: int) -> bool {
    exists|j: int| 0 <= j < i && (#[trigger] ms[j]).id@ == ms[i].id@
}

/// A map without rows, or with a row whose length is not the map's width.
pub open spec fn rows_ragged(m: MapDef) -> bool {
    m.rows@.len() == 0 || exists|i: int| 0 <= i < m.rows@.len() && (#[trigger] m.rows@[i])@.len() != (m.map_width() as usize) as int
}

/// A row holding a character that names no tile.
pub open spec fn row_has_unknown_tile(row: Seq<char>) -> bool {
    exists|c: int| 0 <= c < row.len() && tile_of_char(#[trigger] row[c]) is None
}

/// A map with a character that names no tile.
pub open spec fn tiles_unknown(m: MapDef) -> bool {
    exists|i: int| 0 <= i < m.rows@.len() && row_has_unknown_tile((#[trigger] m.rows@[i])@)
}

/// Whether one can stand on `(x, y)` of `m`: a walkable tile with nobody on it.
pub open spec fn open_at(m: MapDef, x: i32, y: i32) -> bool {
    m.tile_at(x, y).is_walkable() && !m.has_npc_at(x, y)
}

/// Whether the bits encode a finite `f32` that is not below zero.
pub open spec fn rate_bits_ok(bits: u32) -> bool {
    &&& (bits % 0x8000_0000) / 0x80_0000 != 255
    &&& (bits < 0x8000_0000 || bits % 0x8000_0000 == 0)
}

/// The problem of warp `i` of map `m`: its source outside the map, an
/// unknown target map, its landing outside that map or on a blocked tile.
pub open spec fn warp_problem(data: &GameData, m: MapDef) -> spec_fn(int) -> Option<Seq<char>> {
    |i: int|
        {
            let w = m.warps@[i];
            first_of(
                coordinate_problem(&m, w.x, w.y, "warp source"@),
                match map_named(data, w.to_map@) {
                    None => Some(map_says(m.id@, "' warps to unknown map '"@ + w.to_map@ + "'"@)),
                    Some(t) => first_of(
                        coordinate_problem(&t, w.to_x, w.to_y, "warp destination"@),
                        if !open_at(t, w.to_x, w.to_y) {
                            Some(map_says(m.id@, "' warp lands on blocked tile in '"@ + w.to_map@ + "'"@))
                        } else {
                            None
                        },
                    ),
                },
            )
        }
}

/// The problem of door `i` of map `m`: outside the map, or not on a
/// settlement-door tile of a map with a settlement.
pub open spec fn door_problem(m: MapDef) -> spec_fn(int) -> Option<Seq<char>> {
    |i: int|
        {
            let d = m.doors@[i];
            first_of(
                coordinate_problem(&m, d.x, d.y, "door"@),
                if m.tile_at(d.x, d.y) != TileKind::SettlementDoor || m.settlement is None {
                    Some(map_says(m.id@, "' has a settlement door without a matching tile and settlement"@))
                } else {
                    None
                },
            )
        }
}

/// The problem of encounter entry `i` of map `m`: no weight, a zero
/// minimum, a minimum above the maximum, or an unknown species.
pub open spec fn encounter_problem(data: &GameData, m: MapDef) -> spec_fn(int) -> Option<Seq<char>> {
    |i: int|
        {
            let e = m.encounters@[i];
            if e.weight == 0 || e.min == 0 || e.min > e.max || !data.species@.contains_key(e.species@) {
                Some(map_says(m.id@, "' has invalid encounter '"@ + e.species@ + "'"@))
            } else {
                None
            }
        }
}

/// A quest reference of a rule of person `nid` that names no quest.
pub open spec fn quest_ref_problem(data: &GameData, nid: Seq<char>, q: Option<String>) -> Option<Seq<char>> {
    match q {
        Some(q) => if !data.quests@.contains_key(q@) {
            Some(npc_says(nid, "' references unknown quest '"@ + q@ + "'"@))
        } else {
            None
        },
        None => None,
    }
}

/// A quest reference of a condition of person `nid` that names no quest.
pub open spec fn cond_quest_problem(data: &GameData, nid: Seq<char>, q: Option<String>) -> Option<Seq<char>> {
    match q {
        Some(q) => if !data.quests@.contains_key(q@) {
            Some(npc_says(nid, "' condition references unknown quest '"@ + q@ + "'"@))
        } else {
            None
        },
        None => None,
    }
}

/// A factory reference of a condition of person `nid` that names no factory.
pub open spec fn cond_factory_problem(data: &GameData, nid: Seq<char>, f: Option<Seq<char>>) -> Option<Seq<char>> {
    match f {
        Some(f) => if !data.factories@.contains_key(f) {
            Some(npc_says(nid, "' condition references unknown factory '"@ + f + "'"@))
        } else {
            None
        },
        None => None,
    }
}

/// Whether a verdict condition names one of the three verdicts.
pub open spec fn verdict_word(v: Seq<char>) -> bool {
    v == "Purge"@ || v == "Reseed"@ || v == "Bind"@
}

/// The first problem of a condition of person `nid`: its quests (active,
/// ready, done, none), its verdict, its relapse and its heart references.
pub open spec fn cond_problem(data: &GameData, nid: Seq<char>, c: DialogueCond) -> Option<Seq<char>> {
    first_of(
        cond_quest_problem(data, nid, c.quest_active),
        first_of(
            cond_quest_problem(data, nid, c.quest_ready),
            first_of(
                cond_quest_problem(data, nid, c.quest_done),
                first_of(
                    cond_quest_problem(data, nid, c.quest_none),
                    first_of(
                        match c.verdict {
                            Some((f, v)) => if !data.factories@.contains_key(f@) || !verdict_word(v@) {
                                Some(npc_says(nid, "' has an invalid verdict condition"@))
                            } else {
                                None
                            },
                            None => None,
                        },
                        first_of(
                            cond_factory_problem(data, nid, match c.relapsed {
                                Some((f, _)) => Some(f@),
                                None => None,
                            }),
                            cond_factory_problem(data, nid, match c.heart_defeated {
                                Some(f) => Some(f@),
                                None => None,
                            }),
                        ),
                    ),
                ),
            ),
        ),
    )
}

/// The problem of part `i` given by a rule of person `nid`: an unknown part.
pub open spec fn give_problem(data: &GameData, nid: Seq<char>, grafts: Seq<String>) -> spec_fn(int) -> Option<Seq<char>> {
    |i: int|
        if !data.graftware@.contains_key(grafts[i]@) {
            Some(npc_says(nid, "' references unknown graft '"@ + grafts[i]@ + "'"@))
        } else {
            None
        }
}

/// The first problem of dialogue rule `k` of person `nid`: no lines, an
/// unknown part, an unknown quest to start or complete, else its condition.
pub open spec fn rule_problem(data: &GameData, nid: Seq<char>, rules: Seq<DialogueRule>) -> spec_fn(int) -> Option<Seq<char>> {
    |k: int|
        {
            let rule = rules[k];
            if rule.lines@.len() == 0 {
                Some(npc_says(nid, "' has an empty dialogue rule"@))
            } else {
                first_of(
                    scan(rule.give_grafts@.len() as int, give_problem(data, nid, rule.give_grafts@)),
                    first_of(
                        quest_ref_problem(data, nid, rule.start_quest),
                        first_of(
                            quest_ref_problem(data, nid, rule.complete_quest),
                            match rule.when {
                                Some(c) => cond_problem(data, nid, c),
                                None => None,
                            },
                        ),
                    ),
                )
            }
        }
}

/// The first problem of person `i` of map `m`: standing outside the map,
/// having nothing to say, else their first bad rule.
pub open spec fn npc_problem(data: &GameData, m: MapDef) -> spec_fn(int) -> Option<Seq<char>> {
    |i: int|
        {
            let n = m.npcs@[i];
            first_of(
                coordinate_problem(&m, n.x, n.y, "NPC"@),
                if n.lines@.len() == 0 && n.dialogue@.len() == 0 {
                    Some(npc_says(n.id@, "' has no dialogue"@))
                } else {
                    scan(n.dialogue@.len() as int, rule_problem(data, n.id@, n.dialogue@))
                },
            )
        }
}

/// The first problem of map `m` after its id, rows and tiles: its spawn,
/// region and settlement, then its warps, doors, encounters, encounter rate
/// and people.
pub open spec fn map_body_problem(data: &GameData, m: MapDef) -> Option<Seq<char>> {
    first_of(
        coordinate_problem(&m, m.spawn_x, m.spawn_y, "spawn"@),
        if !open_at(m, m.spawn_x, m.spawn_y) {
            Some(map_says(m.id@, "' spawn is blocked"@))
        } else if first_match(data.world.regions@, region_has_id(m.region@)) is None {
            Some(map_says(m.id@, "' references unknown region '"@ + m.region@ + "'"@))
        } else if m.settlement matches Some(st) && !data.settlements@.contains_key(st@) {
            Some(map_says(m.id@, "' references unknown settlement '"@ + m.settlement->0@ + "'"@))
        } else {
            first_of(
                scan(m.warps@.len() as int, warp_problem(data, m)),
                first_of(
                    scan(m.doors@.len() as int, door_problem(m)),
                    first_of(
                        scan(m.encounters@.len() as int, encounter_problem(data, m)),
                        if !rate_bits_ok(m.encounter_rate_bits) {
                            Some(map_says(m.id@, "' has invalid encounter rate"@))
                        } else {
                            scan(m.npcs@.len() as int, npc_problem(data, m))
                        },
                    ),
                ),
            )
        },
    )
}

/// The first problem of map `i` of the world.
pub open spec fn map_problem(data: &GameData) -> spec_fn(int) -> Option<Seq<char>> {
    |i: int|
        {
            let m = data.world.maps@[i];
            if blank(m.id@) || map_seen(data.world.maps@, i) {
                Some("content validation: duplicate or empty map id '"@ + m.id@ + "'"@)
            } else if rows_ragged(m) {
                Some(map_says(m.id@, "' has empty or ragged rows"@))
            } else if tiles_unknown(m) {
                Some(map_says(m.id@, "' has an unknown tile"@))
            } else {
                map_body_problem(data, m)
            }
        }
}

/// The first problem of the world: its regions in order, a missing start
/// map, then its maps in order.
pub open spec fn world_problem(data: &GameData) -> Option<Seq<char>> {
    first_of(
        scan(data.world.regions@.len() as int, region_problem(data)),
        if map_named(data, data.world.start_map@) is None {
            Some("content validation: start map '"@ + data.world.start_map@ + "' does not exist"@)
        } else {
            scan(data.world.maps@.len() as int, map_problem(data))
        },
    )
}

fn map_message(id: &str, tail: String) -> (r: String)
    ensures
        r@ == map_says(id@, tail@),
{
    let mut m = "content validation: map '".to_owned();
    push_str(&mut m, id);
    push_str(&mut m, tail.as_str());
    m
}

fn npc_message(id: &str, tail: String) -> (r: String)
    ensures
        r@ == npc_says(id@, tail@),
{
    let mut m = "content validation: NPC '".to_owned();
    push_str(&mut m, id);
    push_str(&mut m, tail.as_str());
    m
}

fn check_region(data: &GameData, i: usize) -> (r: Result<(), String>)
    requires
        i < data.world.regions@.len(),
    ensures
        outcome(r) == region_problem(data)(i as int),
{
    let regions = &data.world.regions;
    let reg = &regions[i];
    let mut seen = false;
    let mut j: usize = 0;
    while j < i
        invariant
            i < regions@.len(),
            j <= i,
            seen == (exists|k: int| 0 <= k < j && (#[trigger] regions@[k]).id@ == regions@[i as int].id@),
        decreases i - j,
    {
        if str_eq(regions[j].id.as_str(), regions[i].id.as_str()) {
            seen = true;
            assert(regions@[j as int].id@ == regions@[i as int].id@);
        }
        j = j + 1;
    }
    if is_blank(reg.id.as_str()) || seen {
        return Err(concat3("content validation: duplicate or empty region id '", reg.id.as_str(), "'"));
    }
    if reg.tier < 1 || reg.tier > 4 || !data.factories.contains_key(reg.gestarium_id.as_str()) {
        let mut m = "content validation: region '".to_owned();
        push_str(&mut m, reg.id.as_str());
        push_str(&mut m, "' has invalid tier or factory '");
        push_str(&mut m, reg.gestarium_id.as_str());
        push_str(&mut m, "'");
        return Err(m);
    }
    Ok(())
}

fn rows_are_ragged(m: &MapDef) -> (r: bool)
    ensures
        r == rows_ragged(*m),
{
    if m.rows.len() == 0 {
        return true;
    }
    let w = m.width() as usize;
    let mut i: usize = 0;
    while i < m.rows.len()
        invariant
            i <= m.rows@.len(),
            w == (m.map_width() as usize),
            forall|j: int| 0 <= j < i ==> (#[trigger] m.rows@[j])@.len() == w as int,
        decreases m.rows@.len() - i,
    {
        if char_count(m.rows[i].as_str()) != w {
            return true;
        }
        i = i + 1;
    }
    false
}

fn row_unknown(row: &str) -> (r: bool)
    ensures
        r == row_has_unknown_tile(row@),
{
    let mut found = false;
    for c in iter: row.chars()
        invariant
            iter.seq() == row@,
            found == (exists|k: int| 0 <= k < iter.index() && tile_of_char(#[trigger] row@[k]) is None),
    {
        if TileKind::from_char(c).is_none() {
            found = true;
        }
    }
    found
}

fn has_unknown_tile(m: &MapDef) -> (r: bool)
    ensures
        r == tiles_unknown(*m),
{
    let mut i: usize = 0;
    while i < m.rows.len()
        invariant
            i <= m.rows@.len(),
            forall|j: int| 0 <= j < i ==> !row_has_unknown_tile((#[trigger] m.rows@[j])@),
        decreases m.rows@.len() - i,
    {
        if row_unknown(m.rows[i].as_str()) {
            return true;
        }
        i = i + 1;
    }
    false
}

fn rate_ok(bits: u32) -> (r: bool)
    ensures
        r == rate_bits_ok(bits),
{
    let mag = bits % 0x8000_0000;
    mag / 0x80_0000 != 255 && (bits < 0x8000_0000 || mag == 0)
}

fn check_warp(data: &GameData, m: &MapDef, i: usize) -> (r: Result<(), String>)
    requires
        i < m.warps@.len(),
    ensures
        outcome(r) == warp_problem(data, *m)(i as int),
{
    let w = &m.warps[i];
    let r = map_coordinate(m, w.x, w.y, "warp source");
    if r.is_err() {
        return r;
    }
    let t = match data.world.map(w.to_map.as_str()) {
        Some(t) => t,
        None => {
            return Err(map_message(m.id.as_str(), concat3("' warps to unknown map '", w.to_map.as_str(), "'")));
        },
    };
    let r = map_coordinate(t, w.to_x, w.to_y, "warp destination");
    if r.is_err() {
        return r;
    }
    if !t.walkable(w.to_x, w.to_y) {
        return Err(map_message(m.id.as_str(), concat3("' warp lands on blocked tile in '", w.to_map.as_str(), "'")));
    }
    Ok(())
}

fn check_door(m: &MapDef, i: usize) -> (r: Result<(), String>)
    requires
        i < m.doors@.len(),
    ensures
        outcome(r) == door_problem(*m)(i as int),
{
    let d = &m.doors[i];
    let r = map_coordinate(m, d.x, d.y, "door");
    if r.is_err() {
        return r;
    }
    if m.tile(d.x, d.y) != TileKind::SettlementDoor || m.settlement.is_none() {
        return Err(map_message(m.id.as_str(), "' has a settlement door without a matching tile and settlement".to_owned()));
    }
    Ok(())
}

fn check_encounter(data: &GameData, m: &MapDef, i: usize) -> (r: Result<(), String>)
    requires
        i < m.encounters@.len(),
    ensures
        outcome(r) == encounter_problem(data, *m)(i as int),
{
    let e = &m.encounters[i];
    if e.weight == 0 || e.min == 0 || e.min > e.max || !data.species.contains_key(e.species.as_str()) {
        return Err(map_message(m.id.as_str(), concat3("' has invalid encounter '", e.species.as_str(), "'")));
    }
    Ok(())
}

fn check_quest_ref(data: &GameData, nid: &str, q: &Option<String>) -> (r: Result<(), String>)
    ensures
        outcome(r) == quest_ref_problem(data, nid@, *q),
{
    if let Some(q) = q {
        if !data.quests.contains_key(q.as_str()) {
            return Err(npc_message(nid, concat3("' references unknown quest '", q.as_str(), "'")));
        }
    }
    Ok(())
}

fn check_cond_quest(data: &GameData, nid: &str, q: &Option<String>) -> (r: Result<(), String>)
    ensures
        outcome(r) == cond_quest_problem(data, nid@, *q),
{
    if let Some(q) = q {
        if !data.quests.contains_key(q.as_str()) {
            return Err(npc_message(nid, concat3("' condition references unknown quest '", q.as_str(), "'")));
        }
    }
    Ok(())
}

fn check_cond_factory(data: &GameData, nid: &str, f: Option<&String>) -> (r: Result<(), String>)
    ensures
        outcome(r) == cond_factory_problem(data, nid@, match f {
            Some(f) => Some(f@),
            None => None,
        }),
{
    if let Some(f) = f {
        if !data.factories.contains_key(f.as_str()) {
            return Err(npc_message(nid, concat3("' condition references unknown factory '", f.as_str(), "'")));
        }
    }
    Ok(())
}

fn check_cond(data: &GameData, nid: &str, c: &DialogueCond) -> (r: Result<(), String>)
    ensures
        outcome(r) == cond_problem(data, nid@, *c),
{
    let r = check_cond_quest(data, nid, &c.quest_active);
    if r.is_err() {
        return r;
    }
    let r = check_cond_quest(data, nid, &c.quest_ready);
    if r.is_err() {
        return r;
    }
    let r = check_cond_quest(data, nid, &c.quest_done);
    if r.is_err() {
        return r;
    }
    let r = check_cond_quest(data, nid, &c.quest_none);
    if r.is_err() {
        return r;
    }
    if let Some((f, v)) = &c.verdict {
        let named = str_eq(v.as_str(), "Purge") || str_eq(v.as_str(), "Reseed") || str_eq(v.as_str(), "Bind");
        if !data.factories.contains_key(f.as_str()) || !named {
            return Err(npc_message(nid, "' has an invalid verdict condition".to_owned()));
        }
    }
    let relapsed: Option<&String> = match &c.relapsed {
        Some((f, _)) => Some(f),
        None => None,
    };
    let r = check_cond_factory(data, nid, relapsed);
    if r.is_err() {
        return r;
    }
    check_cond_factory(data, nid, c.heart_defeated.as_ref())
}

#[verifier::loop_isolation(false)]
fn check_rule(data: &GameData, nid: &str, rules: &Vec<DialogueRule>, k: usize) -> (r: Result<(), String>)
    requires
        k < rules@.len(),
    ensures
        outcome(r) == rule_problem(data, nid@, rules@)(k as int),
{
    let rule = &rules[k];
    if rule.lines.len() == 0 {
        return Err(npc_message(nid, "' has an empty dialogue rule".to_owned()));
    }
    let ghost f = give_problem(data, nid@, rule.give_grafts@);
    let mut i: usize = 0;
    while i < rule.give_grafts.len()
        invariant
            i <= rule.give_grafts@.len(),
            scan(i as int, f) is None,
        decreases rule.give_grafts@.len() - i,
    {
        if !data.graftware.contains_key(rule.give_grafts[i].as_str()) {
            proof {
                lemma_scan_found(f, i as int, rule.give_grafts@.len() as int);
            }
            return Err(npc_message(nid, concat3("' references unknown graft '", rule.give_grafts[i].as_str(), "'")));
        }
        i = i + 1;
    }
    let r = check_quest_ref(data, nid, &rule.start_quest);
    if r.is_err() {
        return r;
    }
    let r = check_quest_ref(data, nid, &rule.complete_quest);
    if r.is_err() {
        return r;
    }
    match &rule.when {
        Some(c) => check_cond(data, nid, c),
        None => Ok(()),
    }
}

#[verifier::loop_isolation(false)]
fn check_npc(data: &GameData, m: &MapDef, i: usize) -> (r: Result<(), String>)
    requires
        i < m.npcs@.len(),
    ensures
        outcome(r) == npc_problem(data, *m)(i as int),
{
    let n = &m.npcs[i];
    let r = map_coordinate(m, n.x, n.y, "NPC");
    if r.is_err() {
        return r;
    }
    if n.lines.len() == 0 && n.dialogue.len() == 0 {
        return Err(npc_message(n.id.as_str(), "' has no dialogue".to_owned()));
    }
    let ghost f = rule_problem(data, n.id@, n.dialogue@);
    let mut k: usize = 0;
    while k < n.dialogue.len()
        invariant
            k <= n.dialogue@.len(),
            scan(k as int, f) is None,
        decreases n.dialogue@.len() - k,
    {
        let r = check_rule(data, n.id.as_str(), &n.dialogue, k);
        if r.is_err() {
            proof {
                lemma_scan_found(f, k as int, n.dialogue@.len() as int);
            }
            return r;
        }
        k = k + 1;
    }
    Ok(())
}

#[verifier::loop_isolation(false)]
fn check_map_body(data: &GameData, m: &MapDef) -> (r: Result<(), String>)
    ensures
        outcome(r) == map_body_problem(data, *m),
{
    let r = map_coordinate(m, m.spawn_x, m.spawn_y, "spawn");
    if r.is_err() {
        return r;
    }
    if !m.walkable(m.spawn_x, m.spawn_y) {
        return Err(map_message(m.id.as_str(), "' spawn is blocked".to_owned()));
    }
    if data.world.region(m.region.as_str()).is_none() {
        return Err(map_message(m.id.as_str(), concat3("' references unknown region '", m.region.as_str(), "'")));
    }
    if let Some(st) = &m.settlement {
        if !data.settlements.contains_key(st.as_str()) {
            return Err(map_message(m.id.as_str(), concat3("' references unknown settlement '", st.as_str(), "'")));
        }
    }
    let ghost warps_f = warp_problem(data, *m);
    let mut i: usize = 0;
    while i < m.warps.len()
        invariant
            i <= m.warps@.len(),
            scan(i as int, warps_f) is None,
        decreases m.warps@.len() - i,
    {
        let r = check_warp(data, m, i);
        if r.is_err() {
            proof {
                lemma_scan_found(warps_f, i as int, m.warps@.len() as int);
            }
            return r;
        }
        i = i + 1;
    }
    let ghost doors_f = door_problem(*m);
    let mut i: usize = 0;
    while i < m.doors.len()
        invariant
            i <= m.doors@.len(),
            scan(i as int, doors_f) is None,
        decreases m.doors@.len() - i,
    {
        let r = check_door(m, i);
        if r.is_err() {
            proof {
                lemma_scan_found(doors_f, i as int, m.doors@.len() as int);
            }
            return r;
        }
        i = i + 1;
    }
    let ghost enc_f = encounter_problem(data, *m);
    let mut i: usize = 0;
    while i < m.encounters.len()
        invariant
            i <= m.encounters@.len(),
            scan(i as int, enc_f) is None,
        decreases m.encounters@.len() - i,
    {
        let r = check_encounter(data, m, i);
        if r.is_err() {
            proof {
                lemma_scan_found(enc_f, i as int, m.encounters@.len() as int);
            }
            return r;
        }
        i = i + 1;
    }
    if !rate_ok(m.encounter_rate_bits) {
        return Err(map_message(m.id.as_str(), "' has invalid encounter rate".to_owned()));
    }
    let ghost npc_f = npc_problem(data, *m);
    let mut i: usize = 0;
    while i < m.npcs.len()
        invariant
            i <= m.npcs@.len(),
            scan(i as int, npc_f) is None,
        decreases m.npcs@.len() - i,
    {
        let r = check_npc(data, m, i);
        if r.is_err() {
            proof {
                lemma_scan_found(npc_f, i as int, m.npcs@.len() as int);
            }
            return r;
        }
        i = i + 1;
    }
    Ok(())
}

fn check_map(data: &GameData, i: usize) -> (r: Result<(), String>)
    requires
        i < data.world.maps@.len(),
    ensures
        outcome(r) == map_problem(data)(i as int),
{
    let maps = &data.world.maps;
    let m = &maps[i];
    let mut seen = false;
    let mut j: usize = 0;
    while j < i
        invariant
            i < maps@.len(),
            j <= i,
            seen == (exists|k: int| 0 <= k < j && (#[trigger] maps@[k]).id@ == maps@[i as int].id@),
        decreases i - j,
    {
        if str_eq(maps[j].id.as_str(), maps[i].id.as_str()) {
            seen = true;
            assert(maps@[j as int].id@ == maps@[i as int].id@);
        }
        j = j + 1;
    }
    if is_blank(m.id.as_str()) || seen {
        return Err(concat3("content validation: duplicate or empty map id '", m.id.as_str(), "'"));
    }
    if rows_are_ragged(m) {
        return Err(map_message(m.id.as_str(), "' has empty or ragged rows".to_owned()));
    }
    if has_unknown_tile(m) {
        return Err(map_message(m.id.as_str(), "' has an unknown tile".to_owned()));
    }
    check_map_body(data, m)
}

pub fn validate_world(data: &GameData) -> (r: Result<(), String>)
    ensures
        outcome(r) == world_problem(data),
{
    let ghost regions_f = region_problem(data);
    let mut i: usize = 0;
    while i < data.world.regions.len()
        invariant
            i <= data.world.regions@.len(),
            regions_f == region_problem(data),
            scan(i as int, regions_f) is None,
        decreases data.world.regions@.len() - i,
    {
        let r = check_region(data, i);
        if r.is_err() {
            proof {
                lemma_scan_found(regions_f, i as int, data.world.regions@.len() as int);
            }
            return r;
        }
        i = i + 1;
    }
    if data.world.map(data.world.start_map.as_str()).is_none() {
        return Err(concat3("content validation: start map '", data.world.start_map.as_str(), "' does not exist"));
    }
    let ghost maps_f = map_problem(data);
    let mut i: usize = 0;
    while i < data.world.maps.len()
        invariant
            i <= data.world.maps@.len(),
            maps_f == map_problem(data),
            scan(data.world.regions@.len() as int, region_problem(data)) is None,
            map_named(data, data.world.start_map@) is Some,
            scan(i as int, maps_f) is None,
        decreases data.world.maps@.len() - i,
    {
        let r = check_map(data, i);
        if r.is_err() {
            proof {
                lemma_scan_found(maps_f, i as int, data.world.maps@.len() as int);
            }
            return r;
        }
        i = i + 1;
    }
    Ok(())
}

/// A world that passes validation is consistent to walk: the start map
/// exists, and every map has rows of its width made of known tiles, a spawn
/// one can stand on, a known region, and warps that land on open tiles of
/// existing maps.
pub proof fn validated_world_is_walkable(data: &GameData)
    requires
        world_problem(data) is None,
    ensures
        map_named(data, data.world.start_map@) is Some,
        forall|i: int| 0 <= i < data.world.maps@.len() ==> {
            let m = #[trigger] data.world.maps@[i];
            &&& !rows_ragged(m)
            &&& !tiles_unknown(m)
            &&& open_at(m, m.spawn_x, m.spawn_y)
            &&& first_match(data.world.regions@, region_has_id(m.region@)) is Some
            &&& forall|k: int| 0 <= k < m.warps@.len() ==> {
                let w = #[trigger] m.warps@[k];
                &&& map_named(data, w.to_map@) matches Some(t) && open_at(t, w.to_x, w.to_y)
            }
        },
{
    lemma_scan_none(map_problem(data), data.world.maps@.len() as int);
    assert forall|i: int| 0 <= i < data.world.maps@.len() implies {
        let m = #[trigger] data.world.maps@[i];
        &&& !rows_ragged(m)
        &&& !tiles_unknown(m)
        &&& open_at(m, m.spawn_x, m.spawn_y)
        &&& first_match(data.world.regions@, region_has_id(m.region@)) is Some
        &&& forall|k: int| 0 <= k < m.warps@.len() ==> {
            let w = #[trigger] m.warps@[k];
            &&& map_named(data, w.to_map@) matches Some(t) && open_at(t, w.to_x, w.to_y)
        }
    } by {
        let m = data.world.maps@[i];
        assert(map_problem(data)(i) is None);
        lemma_scan_none(warp_problem(data, m), m.warps@.len() as int);
        assert forall|k: int| 0 <= k < m.warps@.len() implies {
            let w = #[trigger] m.warps@[k];
            &&& map_named(data, w.to_map@) matches Some(t) && open_at(t, w.to_x, w.to_y)
        } by {
            assert(warp_problem(data, m)(k) is None);
        }
    }
}

} // verus!
