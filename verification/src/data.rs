//! Game content definitions: species, graftware, the world, settlements,
//! quests and factories, and the balance numbers the rules read.

pub mod balance;
pub mod factory;
pub mod graftware;
pub mod quest;
pub mod settlement;
pub mod species;
pub mod validation;
pub mod world;

use crate::collections::{names_contain, StrMap};
use balance::BalanceConfig;
use factory::FactoryDef;
use graftware::GraftwareDef;
use quest::QuestDef;
use settlement::SettlementDef;
use species::SpeciesDef;
use vstd::prelude::*;
use world::{same_map, MapDef, MapKind, WorldDef};

verus! {

#[derive(Debug, Clone)]
pub struct GameConfig {
    pub game_name: String,
    pub display_name: String,
    pub save_slot: String,
    pub version: String,
}

/// One entry of the texture manifest: a lookup key and the file it loads.
#[derive(Debug, Clone)]
pub struct TextureConfig {
    pub key: String,
    pub path: String,
}

/// All authored content, each registry keyed by definition id.
pub struct GameData {
    pub config: GameConfig,
    pub balance: BalanceConfig,
    pub species: StrMap<SpeciesDef>,
    pub graftware: StrMap<GraftwareDef>,
    pub world: WorldDef,
    pub settlements: StrMap<SettlementDef>,
    pub quests: StrMap<QuestDef>,
    pub factories: StrMap<FactoryDef>,
    pub texture_manifest: Vec<TextureConfig>,
}

/// One region's authored content, merged into the world at load.
pub struct RegionPack {
    pub maps: Vec<MapDef>,
    pub settlements: Vec<SettlementDef>,
    pub factories: Vec<FactoryDef>,
}

/// `m` with each settlement of `defs` stored under its id, in turn.
pub open spec fn settlements_stored(m: Map<Seq<char>, SettlementDef>, defs: Seq<SettlementDef>) -> Map<Seq<char>, SettlementDef>
    decreases defs.len(),
{
    if defs.len() == 0 {
        m
    } else {
        settlements_stored(m, defs.drop_last()).insert(defs.last().id@, defs.last())
    }
}

/// `m` with each factory of `defs` stored under its id, in turn.
pub open spec fn factories_stored(m: Map<Seq<char>, FactoryDef>, defs: Seq<FactoryDef>) -> Map<Seq<char>, FactoryDef>
    decreases defs.len(),
{
    if defs.len() == 0 {
        m
    } else {
        factories_stored(m, defs.drop_last()).insert(defs.last().id@, defs.last())
    }
}

/// The floors of the factories `ids`, in turn, each with its factory's id.
pub open spec fn floor_entries(factories: Map<Seq<char>, FactoryDef>, ids: Seq<String>) -> Seq<(MapDef, Seq<char>)>
    decreases ids.len(),
{
    if ids.len() == 0 {
        Seq::empty()
    } else {
        let f = factories[ids.last()@];
        floor_entries(factories, ids.drop_last()) + f.floors@.map_values(|m: MapDef| (m, f.id@))
    }
}

/// Map `a` is floor `floor` turned into a factory map of factory `fid`.
pub open spec fn marked_floor(a: MapDef, floor: MapDef, fid: Seq<char>) -> bool {
    &&& same_map(a, MapDef { kind: MapKind::Factory, factory_id: a.factory_id, ..floor })
    &&& a.factory_id matches Some(x) && x@ == fid
}

impl GameData {
    /// Merges one region's content: its maps join the world, and its
    /// settlements and factories are stored under their ids, replacing any
    /// earlier definition with the same id.
    pub fn merge_pack(&mut self, pack: RegionPack)
        ensures
            final(self).world.maps@ == old(self).world.maps@ + pack.maps@,
            final(self).settlements@ == settlements_stored(old(self).settlements@, pack.settlements@),
            final(self).factories@ == factories_stored(old(self).factories@, pack.factories@),
            final(self).world.start_map == old(self).world.start_map,
            final(self).world.regions == old(self).world.regions,
            final(self).config == old(self).config,
            final(self).balance == old(self).balance,
            final(self).species == old(self).species,
            final(self).graftware == old(self).graftware,
            final(self).quests == old(self).quests,
            final(self).texture_manifest == old(self).texture_manifest,
    {
        let RegionPack { maps, settlements, factories } = pack;
        let ghost pack_maps = maps@;
        let ghost pack_settlements = settlements@;
        let ghost pack_factories = factories@;
        for m in iter: maps
            invariant
                iter.seq() == pack_maps,
                self.world.maps@ == old(self).world.maps@ + pack_maps.take(iter.index() as int),
                self.settlements == old(self).settlements,
                self.factories == old(self).factories,
                self.world.start_map == old(self).world.start_map,
                self.world.regions == old(self).world.regions,
                self.config == old(self).config,
                self.balance == old(self).balance,
                self.species == old(self).species,
                self.graftware == old(self).graftware,
                self.quests == old(self).quests,
                self.texture_manifest == old(self).texture_manifest,
        {
            let ghost k = iter.index();
            self.world.maps.push(m);
            assert(self.world.maps@ =~= old(self).world.maps@ + pack_maps.take(k + 1));
        }
        assert(pack_maps.take(pack_maps.len() as int) =~= pack_maps);
        for st in iter: settlements
            invariant
                iter.seq() == pack_settlements,
                self.world.maps@ == old(self).world.maps@ + pack_maps,
                self.settlements@ == settlements_stored(old(self).settlements@, pack_settlements.take(iter.index() as int)),
                self.factories == old(self).factories,
                self.world.start_map == old(self).world.start_map,
                self.world.regions == old(self).world.regions,
                self.config == old(self).config,
                self.balance == old(self).balance,
                self.species == old(self).species,
                self.graftware == old(self).graftware,
                self.quests == old(self).quests,
                self.texture_manifest == old(self).texture_manifest,
        {
            let ghost k = iter.index();
            assert(pack_settlements.take(k + 1).drop_last() =~= pack_settlements.take(k as int));
            let id = st.id.clone();
            self.settlements.insert(id, st);
        }
        assert(pack_settlements.take(pack_settlements.len() as int) =~= pack_settlements);
        for f in iter: factories
            invariant
                iter.seq() == pack_factories,
                self.world.maps@ == old(self).world.maps@ + pack_maps,
                self.settlements@ == settlements_stored(old(self).settlements@, pack_settlements),
                self.factories@ == factories_stored(old(self).factories@, pack_factories.take(iter.index() as int)),
                self.world.start_map == old(self).world.start_map,
                self.world.regions == old(self).world.regions,
                self.config == old(self).config,
                self.balance == old(self).balance,
                self.species == old(self).species,
                self.graftware == old(self).graftware,
                self.quests == old(self).quests,
                self.texture_manifest == old(self).texture_manifest,
        {
            let ghost k = iter.index();
            assert(pack_factories.take(k + 1).drop_last() =~= pack_factories.take(k as int));
            let id = f.id.clone();
            self.factories.insert(id, f);
        }
        assert(pack_factories.take(pack_factories.len() as int) =~= pack_factories);
    }

    /// Adds every factory floor to the world as a factory map of its
    /// factory, so traversal, warps and encounters work inside a Gestarium as
    /// anywhere else. Factories are taken in registry order, each once.
    pub fn add_factory_floors(&mut self)
        ensures
            final(self).world.maps@.len() >= old(self).world.maps@.len(),
            final(self).world.maps@.take(old(self).world.maps@.len() as int) == old(self).world.maps@,
            exists|ids: Seq<String>|
                {
                    &&& forall|a: int, b: int| 0 <= a < b < ids.len() ==> (#[trigger] ids[a])@ != (#[trigger] ids[b])@
                    &&& forall|n: Seq<char>| names_contain(ids, n) <==> old(self).factories@.contains_key(n)
                    &&& final(self).world.maps@.len() == old(self).world.maps@.len() + floor_entries(
                        old(self).factories@,
                        ids,
                    ).len()
                    &&& forall|p: int| 0 <= p < floor_entries(old(self).factories@, ids).len() ==> marked_floor(
                        #[trigger] final(self).world.maps@[old(self).world.maps@.len() + p],
                        floor_entries(old(self).factories@, ids)[p].0,
                        floor_entries(old(self).factories@, ids)[p].1,
                    )
                },
            final(self).factories == old(self).factories,
            final(self).settlements == old(self).settlements,
            final(self).world.start_map == old(self).world.start_map,
            final(self).world.regions == old(self).world.regions,
            final(self).config == old(self).config,
            final(self).balance == old(self).balance,
            final(self).species == old(self).species,
            final(self).graftware == old(self).graftware,
            final(self).quests == old(self).quests,
            final(self).texture_manifest == old(self).texture_manifest,
    {
        let keys = self.factories.keys();
        let ghost n0 = self.world.maps@.len() as int;
        let ghost fm = self.factories@;
        let factories = &self.factories;
        let maps = &mut self.world.maps;
        let mut i: usize = 0;
        while i < keys.len()
            invariant
                i <= keys@.len(),
                fm == factories@,
                forall|n: Seq<char>| names_contain(keys@, n) <==> fm.contains_key(n),
                maps@.len() == n0 + floor_entries(fm, keys@.take(i as int)).len(),
                maps@.take(n0) == old(self).world.maps@,
                n0 == old(self).world.maps@.len(),
                forall|p: int| 0 <= p < floor_entries(fm, keys@.take(i as int)).len() ==> marked_floor(
                    #[trigger] maps@[n0 + p],
                    floor_entries(fm, keys@.take(i as int))[p].0,
                    floor_entries(fm, keys@.take(i as int))[p].1,
                ),
            decreases keys@.len() - i,
        {
            assert(names_contain(keys@, keys@[i as int]@));
            let f = match factories.get(keys[i].as_str()) {
                Some(f) => f,
                None => vstd::pervasive::unreached(),
            };
            let ghost e = floor_entries(fm, keys@.take(i as int));
            let mut j: usize = 0;
            while j < f.floors.len()
                invariant
                    j <= f.floors@.len(),
                    n0 == old(self).world.maps@.len(),
                    maps@.len() == n0 + e.len() + j,
                    maps@.take(n0) == old(self).world.maps@,
                    forall|p: int| 0 <= p < e.len() ==> marked_floor(#[trigger] maps@[n0 + p], e[p].0, e[p].1),
                    forall|q: int| 0 <= q < j ==> marked_floor(#[trigger] maps@[n0 + e.len() + q], f.floors@[q], f.id@),
                decreases f.floors@.len() - j,
            {
                let mut floor = f.floors[j].clone();
                floor.kind = MapKind::Factory;
                floor.factory_id = Some(f.id.clone());
                let ghost before = maps@;
                maps.push(floor);
                proof {
                    assert forall|p: int| 0 <= p < n0 implies maps@.take(n0)[p] == old(self).world.maps@[p] by {
                        assert(maps@[p] == before[p]);
                        assert(before.take(n0)[p] == old(self).world.maps@[p]);
                    }
                    assert(maps@.take(n0) =~= old(self).world.maps@);
                    assert forall|p: int| 0 <= p < e.len() implies marked_floor(#[trigger] maps@[n0 + p], e[p].0, e[p].1) by {
                        assert(maps@[n0 + p] == before[n0 + p]);
                    }
                    assert forall|q: int| 0 <= q < j + 1 implies marked_floor(#[trigger] maps@[n0 + e.len() + q], f.floors@[q], f.id@) by {
                        if q < j {
                            assert(maps@[n0 + e.len() + q] == before[n0 + e.len() + q]);
                        }
                    }
                }
                j = j + 1;
            }
            proof {
                let t = keys@.take(i + 1);
                assert(t.drop_last() =~= keys@.take(i as int));
                assert(t.last() == keys@[i as int]);
                let e2 = floor_entries(fm, t);
                let fl = f.floors@.map_values(|m: MapDef| (m, f.id@));
                assert(e2 == e + fl);
                assert forall|p: int| 0 <= p < e2.len() implies marked_floor(#[trigger] maps@[n0 + p], e2[p].0, e2[p].1) by {
                    if p >= e.len() {
                        let q = p - e.len();
                        assert(e2[p] == fl[q]);
                        assert(maps@[n0 + e.len() + q] == maps@[n0 + p]);
                    } else {
                        assert(e2[p] == e[p]);
                    }
                }
            }
            i = i + 1;
        }
        assert(keys@.take(keys@.len() as int) =~= keys@);
    }
}

} // verus!
