//! World definitions: regions and connected overworld tile maps.
//!
//! Maps are authored as ASCII rows:
//! `#` tree/wall · `.` ground · `,` path · `g` tall grass (encounters) ·
//! `~` water · `^` rocks · `s` settlement door · `D` gestarium door ·
//! `=` deck plate · `v` vat spill (factory encounters) · `V` gestation vat ·
//! `H` the factory heart.

use crate::collections::{first_match, lemma_first_index_at, lemma_first_index_none, refers_to};
use crate::text::{char_at, char_count, str_eq};
use vstd::prelude::*;

verus! {

#[derive(Debug, Clone, Copy, PartialEq, Eq, Structural)]
pub enum TileKind {
    Ground,
    Path,
    Grass,
    Tree,
    Water,
    Rock,
    SettlementDoor,
    GestariumDoor,
    DeckPlate,
    VatSpill,
    Vat,
    Heart,
}

/// The tile a map character stands for.
pub open spec fn tile_of_char(c: char) -> Option<TileKind> {
    if c == '.' {
        Some(TileKind::Ground)
    } else if c == ',' {
        Some(TileKind::Path)
    } else if c == 'g' {
        Some(TileKind::Grass)
    } else if c == '#' {
        Some(TileKind::Tree)
    } else if c == '~' {
        Some(TileKind::Water)
    } else if c == '^' {
        Some(TileKind::Rock)
    } else if c == 's' {
        Some(TileKind::SettlementDoor)
    } else if c == 'D' {
        Some(TileKind::GestariumDoor)
    } else if c == '=' {
        Some(TileKind::DeckPlate)
    } else if c == 'v' {
        Some(TileKind::VatSpill)
    } else if c == 'V' {
        Some(TileKind::Vat)
    } else if c == 'H' {
        Some(TileKind::Heart)
    } else {
        None
    }
}

impl TileKind {
    /// Whether a creature or the rider can stand on the tile: everything but
    /// trees, water, rocks, vats and the heart.
    pub open spec fn is_walkable(self) -> bool {
        !(self is Tree || self is Water || self is Rock || self is Vat || self is Heart)
    }

    pub fn from_char(c: char) -> (r: Option<TileKind>)
        ensures
            r == tile_of_char(c),
    {
        match c {
            '.' => Some(TileKind::Ground),
            ',' => Some(TileKind::Path),
            'g' => Some(TileKind::Grass),
            '#' => Some(TileKind::Tree),
            '~' => Some(TileKind::Water),
            '^' => Some(TileKind::Rock),
            's' => Some(TileKind::SettlementDoor),
            'D' => Some(TileKind::GestariumDoor),
            '=' => Some(TileKind::DeckPlate),
            'v' => Some(TileKind::VatSpill),
            'V' => Some(TileKind::Vat),
            'H' => Some(TileKind::Heart),
            _ => None,
        }
    }

    pub fn walkable(self) -> (r: bool)
        ensures
            r == self.is_walkable(),
    {
        !matches!(
            self,
            TileKind::Tree | TileKind::Water | TileKind::Rock | TileKind::Vat | TileKind::Heart
        )
    }

    /// Tiles that can trigger encounters when stepped on.
    pub fn encounter_prone(self) -> (r: bool)
        ensures
            r == (self is Grass || self is VatSpill),
    {
        matches!(self, TileKind::Grass | TileKind::VatSpill)
    }
}

/// What kind of map this is — controls palette and encounter arming.
#[derive(Debug, Clone, Copy, PartialEq, Eq, Structural)]
pub enum MapKind {
    Overworld,
    Factory,
}

#[derive(Debug, Clone)]
pub struct RegionDef {
    pub id: String,
    pub name: String,
    pub description: String,
    /// Content tier band for wilds and factory output.
    pub tier: u32,
    pub gestarium_id: String,
    pub biomes: Vec<String>,
}

#[derive(Debug)]
pub struct EncounterEntry {
    pub species: String,
    pub weight: u32,
    /// Pack size bounds (inclusive).
    pub min: u32,
    pub max: u32,
}

/// The default pack-size bound of an encounter entry.
pub fn one() -> (r: u32)
    ensures
        r == 1,
{
    1
}

#[derive(Debug)]
pub struct WarpDef {
    pub x: i32,
    pub y: i32,
    pub to_map: String,
    pub to_x: i32,
    pub to_y: i32,
}

/// Which part of a settlement a building door opens into.
#[derive(Debug, Clone, Copy, PartialEq, Eq, Structural)]
pub enum DoorTarget {
    Hub,
    Bench,
    Shop,
    Ring,
}

/// A labelled settlement door: stepping onto its tile opens `target` directly.
#[derive(Debug)]
pub struct DoorDef {
    pub x: i32,
    pub y: i32,
    pub target: DoorTarget,
    /// Sign text drawn above the door in the overworld.
    pub label: Option<String>,
}

/// A condition gating a dialogue rule. Empty fields don't constrain.
#[derive(Debug)]
pub struct DialogueCond {
    /// All of these story flags must be set.
    pub flags_all: Vec<String>,
    /// None of these story flags may be set.
    pub flags_none: Vec<String>,
    /// This factory's heart must be defeated.
    pub heart_defeated: Option<String>,
    /// This factory must carry this verdict ("Purge"|"Reseed"|"Bind").
    pub verdict: Option<(String, String)>,
    /// This factory must (true) / must not (false) be in relapse.
    pub relapsed: Option<(String, bool)>,
    /// This quest must be started and still in progress.
    pub quest_active: Option<String>,
    /// This quest's objective must be met, awaiting turn-in.
    pub quest_ready: Option<String>,
    /// This quest must be fully finished (reward claimed).
    pub quest_done: Option<String>,
    /// This quest must never have been engaged (offer gate).
    pub quest_none: Option<String>,
}

/// One conditional dialogue variant. The first rule whose condition passes
/// plays; author fallbacks last.
#[derive(Debug)]
pub struct DialogueRule {
    pub when: Option<DialogueCond>,
    pub lines: Vec<String>,
    /// Story flags set after the dialogue closes.
    pub set_flags: Vec<String>,
    /// One-shot rewards granted when the dialogue closes.
    pub give_scrip: i64,
    pub give_grafts: Vec<String>,
    /// Accept this quest when the dialogue closes.
    pub start_quest: Option<String>,
    /// Turn in this quest when the dialogue closes, granting its reward.
    pub complete_quest: Option<String>,
}

fn clone_names(v: &Vec<String>) -> (r: Vec<String>)
    ensures
        r@ == v@,
{
    let mut r: Vec<String> = Vec::new();
    let mut i: usize = 0;
    while i < v.len()
        invariant
            i <= v@.len(),
            r@ == v@.take(i as int),
        decreases v@.len() - i,
    {
        r.push(v[i].clone());
        assert(r@ =~= v@.take(i + 1));
        i = i + 1;
    }
    assert(v@.take(v@.len() as int) =~= v@);
    r
}

fn clone_name(o: &Option<String>) -> (r: Option<String>)
    ensures
        r == *o,
{
    match o {
        Some(s) => Some(s.clone()),
        None => None,
    }
}

/// Two conditions that read alike, field by field.
pub open spec fn same_cond(a: DialogueCond, b: DialogueCond) -> bool {
    &&& a.flags_all@ == b.flags_all@
    &&& a.flags_none@ == b.flags_none@
    &&& a.heart_defeated == b.heart_defeated
    &&& a.verdict == b.verdict
    &&& a.relapsed == b.relapsed
    &&& a.quest_active == b.quest_active
    &&& a.quest_ready == b.quest_ready
    &&& a.quest_done == b.quest_done
    &&& a.quest_none == b.quest_none
}

impl Clone for DialogueCond {
    fn clone(&self) -> (r: Self)
        ensures
            same_cond(r, *self),
    {
        DialogueCond {
            flags_all: clone_names(&self.flags_all),
            flags_none: clone_names(&self.flags_none),
            heart_defeated: clone_name(&self.heart_defeated),
            verdict: match &self.verdict {
                Some((f, v)) => Some((f.clone(), v.clone())),
                None => None,
            },
            relapsed: match &self.relapsed {
                Some((f, b)) => Some((f.clone(), *b)),
                None => None,
            },
            quest_active: clone_name(&self.quest_active),
            quest_ready: clone_name(&self.quest_ready),
            quest_done: clone_name(&self.quest_done),
            quest_none: clone_name(&self.quest_none),
        }
    }
}

impl Default for DialogueCond {
    /// The condition that constrains nothing.
    fn default() -> (r: Self)
        ensures
            r.flags_all@.len() == 0,
            r.flags_none@.len() == 0,
            r.heart_defeated is None,
            r.verdict is None,
            r.relapsed is None,
            r.quest_active is None,
            r.quest_ready is None,
            r.quest_done is None,
            r.quest_none is None,
    {
        DialogueCond {
            flags_all: Vec::new(),
            flags_none: Vec::new(),
            heart_defeated: None,
            verdict: None,
            relapsed: None,
            quest_active: None,
            quest_ready: None,
            quest_done: None,
            quest_none: None,
        }
    }
}

/// Two rules that read alike, field by field.
pub open spec fn same_rule(a: DialogueRule, b: DialogueRule) -> bool {
    &&& match (a.when, b.when) {
        (Some(x), Some(y)) => same_cond(x, y),
        (None, None) => true,
        _ => false,
    }
    &&& a.lines@ == b.lines@
    &&& a.set_flags@ == b.set_flags@
    &&& a.give_scrip == b.give_scrip
    &&& a.give_grafts@ == b.give_grafts@
    &&& a.start_quest == b.start_quest
    &&& a.complete_quest == b.complete_quest
}

impl Clone for DialogueRule {
    fn clone(&self) -> (r: Self)
        ensures
            same_rule(r, *self),
    {
        DialogueRule {
            when: match &self.when {
                Some(c) => Some(c.clone()),
                None => None,
            },
            lines: clone_names(&self.lines),
            set_flags: clone_names(&self.set_flags),
            give_scrip: self.give_scrip,
            give_grafts: clone_names(&self.give_grafts),
            start_quest: clone_name(&self.start_quest),
            complete_quest: clone_name(&self.complete_quest),
        }
    }
}

#[derive(Debug)]
pub struct NpcDef {
    pub id: String,
    pub x: i32,
    pub y: i32,
    pub name: String,
    /// Simple unconditional lines (shorthand for one fallback rule).
    pub lines: Vec<String>,
    /// Conditional dialogue, checked in order before falling back to `lines`.
    pub dialogue: Vec<DialogueRule>,
}

#[derive(Debug)]
pub struct MapDef {
    pub id: String,
    pub name: String,
    pub region: String,
    pub rows: Vec<String>,
    pub spawn_x: i32,
    pub spawn_y: i32,
    /// The IEEE-754 bits of the chance per grass step of a wild encounter;
    /// validation checks that it is finite and not negative.
    pub encounter_rate_bits: u32,
    pub encounters: Vec<EncounterEntry>,
    pub warps: Vec<WarpDef>,
    /// Building doors that open a specific settlement facility.
    pub doors: Vec<DoorDef>,
    pub npcs: Vec<NpcDef>,
    /// Which settlement the `s` doors open.
    pub settlement: Option<String>,
    pub kind: MapKind,
    /// Set on factory floors: which Gestarium this floor belongs to.
    pub factory_id: Option<String>,
}

impl Clone for EncounterEntry {
    fn clone(&self) -> (r: Self)
        ensures
            r == *self,
    {
        EncounterEntry { species: self.species.clone(), weight: self.weight, min: self.min, max: self.max }
    }
}

impl Clone for WarpDef {
    fn clone(&self) -> (r: Self)
        ensures
            r == *self,
    {
        WarpDef { x: self.x, y: self.y, to_map: self.to_map.clone(), to_x: self.to_x, to_y: self.to_y }
    }
}

impl Clone for DoorDef {
    fn clone(&self) -> (r: Self)
        ensures
            r == *self,
    {
        DoorDef { x: self.x, y: self.y, target: self.target, label: clone_name(&self.label) }
    }
}

/// Two people who read alike, field by field.
pub open spec fn same_npc(a: NpcDef, b: NpcDef) -> bool {
    &&& a.id == b.id
    &&& a.x == b.x
    &&& a.y == b.y
    &&& a.name == b.name
    &&& a.lines@ == b.lines@
    &&& a.dialogue@.len() == b.dialogue@.len()
    &&& forall|k: int| 0 <= k < a.dialogue@.len() ==> same_rule(#[trigger] a.dialogue@[k], b.dialogue@[k])
}

impl Clone for NpcDef {
    fn clone(&self) -> (r: Self)
        ensures
            same_npc(r, *self),
    {
        let mut dialogue: Vec<DialogueRule> = Vec::new();
        let mut k: usize = 0;
        while k < self.dialogue.len()
            invariant
                k <= self.dialogue@.len(),
                dialogue@.len() == k,
                forall|j: int| 0 <= j < k ==> same_rule(#[trigger] dialogue@[j], self.dialogue@[j]),
            decreases self.dialogue@.len() - k,
        {
            dialogue.push(self.dialogue[k].clone());
            k = k + 1;
        }
        NpcDef {
            id: self.id.clone(),
            x: self.x,
            y: self.y,
            name: self.name.clone(),
            lines: clone_names(&self.lines),
            dialogue,
        }
    }
}

fn clone_seq<T: Clone>(v: &Vec<T>) -> (r: Vec<T>)
    requires
        forall|a: T, b: T| #[trigger] call_ensures(T::clone, (&a,), b) ==> b == a,
    ensures
        r@ == v@,
{
    let mut r: Vec<T> = Vec::new();
    let mut i: usize = 0;
    while i < v.len()
        invariant
            i <= v@.len(),
            r@ == v@.take(i as int),
            forall|a: T, b: T| #[trigger] call_ensures(T::clone, (&a,), b) ==> b == a,
        decreases v@.len() - i,
    {
        r.push(v[i].clone());
        assert(r@ =~= v@.take(i + 1));
        i = i + 1;
    }
    assert(v@.take(v@.len() as int) =~= v@);
    r
}

/// Two maps that read alike, field by field.
pub open spec fn same_map(a: MapDef, b: MapDef) -> bool {
    &&& a.id == b.id
    &&& a.name == b.name
    &&& a.region == b.region
    &&& a.rows@ == b.rows@
    &&& a.spawn_x == b.spawn_x
    &&& a.spawn_y == b.spawn_y
    &&& a.encounter_rate_bits == b.encounter_rate_bits
    &&& a.encounters@ == b.encounters@
    &&& a.warps@ == b.warps@
    &&& a.doors@ == b.doors@
    &&& a.npcs@.len() == b.npcs@.len()
    &&& forall|k: int| 0 <= k < a.npcs@.len() ==> same_npc(#[trigger] a.npcs@[k], b.npcs@[k])
    &&& a.settlement == b.settlement
    &&& a.kind == b.kind
    &&& a.factory_id == b.factory_id
}

impl Clone for MapDef {
    fn clone(&self) -> (r: Self)
        ensures
            same_map(r, *self),
    {
        let mut npcs: Vec<NpcDef> = Vec::new();
        let mut k: usize = 0;
        while k < self.npcs.len()
            invariant
                k <= self.npcs@.len(),
                npcs@.len() == k,
                forall|j: int| 0 <= j < k ==> same_npc(#[trigger] npcs@[j], self.npcs@[j]),
            decreases self.npcs@.len() - k,
        {
            npcs.push(self.npcs[k].clone());
            k = k + 1;
        }
        MapDef {
            id: self.id.clone(),
            name: self.name.clone(),
            region: self.region.clone(),
            rows: clone_names(&self.rows),
            spawn_x: self.spawn_x,
            spawn_y: self.spawn_y,
            encounter_rate_bits: self.encounter_rate_bits,
            encounters: clone_seq(&self.encounters),
            warps: clone_seq(&self.warps),
            doors: clone_seq(&self.doors),
            npcs,
            settlement: clone_name(&self.settlement),
            kind: self.kind,
            factory_id: clone_name(&self.factory_id),
        }
    }
}

/// The warp test "it leaves from (x, y)".
pub open spec fn warp_at_pos(x: i32, y: i32) -> spec_fn(WarpDef) -> bool {
    |w: WarpDef| w.x == x && w.y == y
}

/// The NPC test "it stands at (x, y)".
pub open spec fn npc_at_pos(x: i32, y: i32) -> spec_fn(NpcDef) -> bool {
    |n: NpcDef| n.x == x && n.y == y
}

/// The door test "it is at (x, y)".
pub open spec fn door_at_pos(x: i32, y: i32) -> spec_fn(DoorDef) -> bool {
    |d: DoorDef| d.x == x && d.y == y
}

impl MapDef {
    /// Width in tiles: the character count of the first row (0 for no rows).
    pub open spec fn map_width(&self) -> i32 {
        if self.rows@.len() == 0 {
            0
        } else {
            self.rows@[0]@.len() as i32
        }
    }

    /// Height in tiles: the number of rows.
    pub open spec fn map_height(&self) -> i32 {
        self.rows@.len() as i32
    }

    /// The tile at (x, y); anything off the map or not a known tile reads as
    /// a tree.
    pub open spec fn tile_at(&self, x: i32, y: i32) -> TileKind {
        if x < 0 || y < 0 || y >= self.map_height() {
            TileKind::Tree
        } else {
            let row = self.rows@[y as int]@;
            if x < row.len() {
                match tile_of_char(row[x as int]) {
                    Some(t) => t,
                    None => TileKind::Tree,
                }
            } else {
                TileKind::Tree
            }
        }
    }

    /// Whether some NPC stands at (x, y).
    pub open spec fn has_npc_at(&self, x: i32, y: i32) -> bool {
        exists|i: int| 0 <= i < self.npcs@.len() && #[trigger] self.npcs@[i].x == x && self.npcs@[i].y == y
    }

    pub fn width(&self) -> (r: i32)
        ensures
            r == self.map_width(),
    {
        if self.rows.len() == 0 {
            0
        } else {
            #[verifier::truncate]
            (char_count(self.rows[0].as_str()) as i32)
        }
    }

    pub fn height(&self) -> (r: i32)
        ensures
            r == self.map_height(),
    {
        #[verifier::truncate]
        (self.rows.len() as i32)
    }

    pub fn tile(&self, x: i32, y: i32) -> (r: TileKind)
        ensures
            r == self.tile_at(x, y),
    {
        if x < 0 || y < 0 || y >= self.height() {
            return TileKind::Tree;
        }
        let n = self.rows.len();
        proof {
            lemma_truncated_len_bound(n, y);
        }
        match char_at(self.rows[y as usize].as_str(), x as usize) {
            Some(c) => match TileKind::from_char(c) {
                Some(t) => t,
                None => TileKind::Tree,
            },
            None => TileKind::Tree,
        }
    }

    /// Whether the tile at (x, y) can be walked on: a walkable tile with no
    /// NPC standing on it.
    pub fn walkable(&self, x: i32, y: i32) -> (r: bool)
        ensures
            r == (self.tile_at(x, y).is_walkable() && !self.has_npc_at(x, y)),
    {
        if !self.tile(x, y).walkable() {
            return false;
        }
        let mut i: usize = 0;
        while i < self.npcs.len()
            invariant
                i <= self.npcs@.len(),
                forall|j: int| 0 <= j < i ==> !(#[trigger] self.npcs@[j].x == x && self.npcs@[j].y == y),
            decreases self.npcs@.len() - i,
        {
            if self.npcs[i].x == x && self.npcs[i].y == y {
                return false;
            }
            i = i + 1;
        }
        true
    }

    /// The first warp leaving from (x, y).
    pub fn warp_at(&self, x: i32, y: i32) -> (r: Option<&WarpDef>)
        ensures
            refers_to(r, first_match(self.warps@, warp_at_pos(x, y))),
    {
        let mut i: usize = 0;
        while i < self.warps.len()
            invariant
                i <= self.warps@.len(),
                forall|j: int| 0 <= j < i ==> !warp_at_pos(x, y)(#[trigger] self.warps@[j]),
            decreases self.warps@.len() - i,
        {
            if self.warps[i].x == x && self.warps[i].y == y {
                proof {
                    lemma_first_index_at(self.warps@, warp_at_pos(x, y), i as int);
                }
                return Some(&self.warps[i]);
            }
            i = i + 1;
        }
        proof {
            lemma_first_index_none(self.warps@, warp_at_pos(x, y));
        }
        None
    }

    /// The first NPC standing at (x, y).
    pub fn npc_at(&self, x: i32, y: i32) -> (r: Option<&NpcDef>)
        ensures
            refers_to(r, first_match(self.npcs@, npc_at_pos(x, y))),
    {
        let mut i: usize = 0;
        while i < self.npcs.len()
            invariant
                i <= self.npcs@.len(),
                forall|j: int| 0 <= j < i ==> !npc_at_pos(x, y)(#[trigger] self.npcs@[j]),
            decreases self.npcs@.len() - i,
        {
            if self.npcs[i].x == x && self.npcs[i].y == y {
                proof {
                    lemma_first_index_at(self.npcs@, npc_at_pos(x, y), i as int);
                }
                return Some(&self.npcs[i]);
            }
            i = i + 1;
        }
        proof {
            lemma_first_index_none(self.npcs@, npc_at_pos(x, y));
        }
        None
    }

    /// The first labelled door at (x, y).
    pub fn door_at(&self, x: i32, y: i32) -> (r: Option<&DoorDef>)
        ensures
            refers_to(r, first_match(self.doors@, door_at_pos(x, y))),
    {
        let mut i: usize = 0;
        while i < self.doors.len()
            invariant
                i <= self.doors@.len(),
                forall|j: int| 0 <= j < i ==> !door_at_pos(x, y)(#[trigger] self.doors@[j]),
            decreases self.doors@.len() - i,
        {
            if self.doors[i].x == x && self.doors[i].y == y {
                proof {
                    lemma_first_index_at(self.doors@, door_at_pos(x, y), i as int);
                }
                return Some(&self.doors[i]);
            }
            i = i + 1;
        }
        proof {
            lemma_first_index_none(self.doors@, door_at_pos(x, y));
        }
        None
    }
}

/// A row index below the (possibly wrapped) `i32` height is a real row.
proof fn lemma_truncated_len_bound(n: usize, y: i32)
    requires
        0 <= y,
        y < (n as i32),
    ensures
        (y as int) < (n as int),
{
    assert(0 <= y && y < (n as i32) ==> (y as usize) < n) by (bit_vector);
}

/// The map test "its id reads `id`".
pub open spec fn map_has_id(id: Seq<char>) -> spec_fn(MapDef) -> bool {
    |m: MapDef| m.id@ == id
}

/// The region test "its id reads `id`".
pub open spec fn region_has_id(id: Seq<char>) -> spec_fn(RegionDef) -> bool {
    |r: RegionDef| r.id@ == id
}

#[derive(Debug, Clone)]
pub struct WorldDef {
    pub start_map: String,
    pub regions: Vec<RegionDef>,
    pub maps: Vec<MapDef>,
}

impl WorldDef {
    /// The first map with this id.
    pub fn map(&self, id: &str) -> (r: Option<&MapDef>)
        ensures
            refers_to(r, first_match(self.maps@, map_has_id(id@))),
    {
        let mut i: usize = 0;
        while i < self.maps.len()
            invariant
                i <= self.maps@.len(),
                forall|j: int| 0 <= j < i ==> !map_has_id(id@)(#[trigger] self.maps@[j]),
            decreases self.maps@.len() - i,
        {
            if str_eq(self.maps[i].id.as_str(), id) {
                proof {
                    lemma_first_index_at(self.maps@, map_has_id(id@), i as int);
                }
                return Some(&self.maps[i]);
            }
            i = i + 1;
        }
        proof {
            lemma_first_index_none(self.maps@, map_has_id(id@));
        }
        None
    }

    /// The first region with this id.
    pub fn region(&self, id: &str) -> (r: Option<&RegionDef>)
        ensures
            refers_to(r, first_match(self.regions@, region_has_id(id@))),
    {
        let mut i: usize = 0;
        while i < self.regions.len()
            invariant
                i <= self.regions@.len(),
                forall|j: int| 0 <= j < i ==> !region_has_id(id@)(#[trigger] self.regions@[j]),
            decreases self.regions@.len() - i,
        {
            if str_eq(self.regions[i].id.as_str(), id) {
                proof {
                    lemma_first_index_at(self.regions@, region_has_id(id@), i as int);
                }
                return Some(&self.regions[i]);
            }
            i = i + 1;
        }
        proof {
            lemma_first_index_none(self.regions@, region_has_id(id@));
        }
        None
    }
}

} // verus!
