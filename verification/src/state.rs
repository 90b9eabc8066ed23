//! Session state, settings, and save data.

use crate::collections::{first_index, first_match, StrSet};
use crate::combat::resolve::profile_sound;
use crate::data::world::map_has_id;
use crate::data::GameData;
use crate::model::creature::{assignment_is, loadout_uses, CreatureInstance, CreatureOrigin, MountAssignment};
use crate::model::inventory::{GraftCondition, GraftItem};
use crate::model::journal::JournalEntry;
use crate::model::party::{creature_cost, creature_has_id, slot_room};
use crate::model::quest::QuestLog;
use crate::model::worldstate::WorldState;
use crate::model::Profile;
use vstd::prelude::*;

verus! {

/// Battle pacing: Wait auto-pauses at decision points;
/// Active never does. A tempo lever, not two combat modes.
#[derive(Debug, Clone, Copy, PartialEq, Eq, Structural)]
pub enum PaceSetting {
    Wait,
    Active,
}

impl PaceSetting {
    pub fn display_name(self) -> (r: &'static str)
        ensures
            r@ == match self {
                PaceSetting::Wait => "Wait"@,
                PaceSetting::Active => "Active"@,
            },
    {
        match self {
            PaceSetting::Wait => "Wait",
            PaceSetting::Active => "Active",
        }
    }

    pub fn toggled(self) -> (r: Self)
        ensures
            r == match self {
                PaceSetting::Wait => PaceSetting::Active,
                PaceSetting::Active => PaceSetting::Wait,
            },
    {
        match self {
            PaceSetting::Wait => PaceSetting::Active,
            PaceSetting::Active => PaceSetting::Wait,
        }
    }
}

/// Where the player stands in the overworld.
#[derive(Debug)]
pub struct Location {
    pub map_id: String,
    pub x: i32,
    pub y: i32,
}

impl Clone for Location {
    fn clone(&self) -> (r: Self)
        ensures
            r == *self,
    {
        Location { map_id: self.map_id.clone(), x: self.x, y: self.y }
    }
}

/// The live game session: everything that persists into a save.
pub struct GameSession {
    pub profile: Profile,
    pub pace: PaceSetting,
    /// Total battles fought (drives bond growth and pacing stats).
    pub battles_fought: u32,
    pub location: Location,
    /// Overworld steps taken — seeds encounter randomness deterministically.
    pub steps: u64,
    /// The sum of the player's factory verdicts.
    pub world_state: WorldState,
    /// Story progression flags set by dialogue and events.
    pub story_flags: StrSet,
    /// Accepted / in-progress / finished quests.
    pub quests: QuestLog,
    /// Auto-generated chronicle of the rider's deeds (codex Journal tab).
    pub journal: Vec<JournalEntry>,
}

/// The opening line of every chronicle.
pub open spec fn first_entry_text() -> Seq<char> {
    "Took up the road \u{2014} no family waiting, so the Hollow spends me freely."@
}

/// The parts a new game starts with, in the order they are handed out.
pub open spec fn starting_parts() -> Seq<Seq<char>> {
    seq!["spark_coil"@, "chitin_plate"@, "healing_pod"@, "static_barb"@]
}

/// An assignment as plain values: limb, slot, item.
pub open spec fn assignment_view(m: MountAssignment) -> (Seq<char>, usize, u64) {
    (m.limb_id@, m.slot, m.item_id)
}

impl GameSession {
    /// A fresh game: the orphan rider, a starter core, and a few salvaged
    /// parts to graft.
    pub fn new_game(data: &GameData) -> (r: Self)
        requires
            data.species@.contains_key("volpi"@),
            first_match(data.world.maps@, map_has_id(data.world.start_map@)) is Some,
        ensures
            r.profile.rider.name@ == "Rill"@,
            r.profile.rider.duel_ranks@ == Map::<Seq<char>, u32>::empty(),
            r.profile.inventory.scrip == 120,
            r.profile.next_id() == 6,
            r.profile.roster.creatures@.len() == 1,
            ({
                let c = r.profile.roster.creatures@[0];
                let inv = &r.profile.inventory;
                let coil_fits = CreatureInstance::mount_takes(data, inv, "volpi"@, "foreleg_l"@, 0, 2);
                let plate_fits = CreatureInstance::mount_takes(data, inv, "volpi"@, "foreleg_r"@, 0, 3);
                &&& c.id == 1
                &&& c.species_id@ == "volpi"@
                &&& c.nickname is None
                &&& c.origin == CreatureOrigin::Starter
                &&& c.loadout@.map_values(|m: MountAssignment| assignment_view(m))
                    == (if coil_fits { seq![("foreleg_l"@, 0usize, 2u64)] } else { Seq::empty() })
                    + (if plate_fits { seq![("foreleg_r"@, 0usize, 3u64)] } else { Seq::empty() })
                &&& r.profile.roster.party@ == if creature_cost(data, c) <= slot_room(data.balance.party_slot_budget, 0) {
                    seq![1u64]
                } else {
                    Seq::empty()
                }
            }),
            r.profile.inventory.items@.len() == 4,
            forall|k: int| 0 <= k < 4 ==> {
                &&& (#[trigger] r.profile.inventory.items@[k]).id == k + 2
                &&& r.profile.inventory.items@[k].def_id@ == starting_parts()[k]
                &&& r.profile.inventory.items@[k].condition == GraftCondition::Intact
            },
            r.profile.inventory.consumables@ == map![
                "mend_salve"@ => 2u32,
                "vigor_draught"@ => 1u32,
                "repair_kit"@ => 1u32,
                "incendiary_rounds"@ => 2u32,
            ],
            r.profile.ids_fresh(),
            r.profile.roster.wf(),
            profile_sound(&r.profile, data),
            r.pace == PaceSetting::Wait,
            r.battles_fought == 0,
            ({
                let start = first_match(data.world.maps@, map_has_id(data.world.start_map@)).unwrap();
                &&& r.location.map_id@ == start.id@
                &&& r.location.x == start.spawn_x
                &&& r.location.y == start.spawn_y
            }),
            r.steps == 0,
            r.world_state.factories@ == Map::<Seq<char>, crate::model::worldstate::FactoryState>::empty(),
            r.story_flags@ == Set::<Seq<char>>::empty(),
            r.quests.active@ == Map::<Seq<char>, u32>::empty(),
            r.quests.ready@ == Set::<Seq<char>>::empty(),
            r.quests.done@ == Set::<Seq<char>>::empty(),
            r.journal@.len() == 1,
            r.journal@[0].step == 0,
            r.journal@[0].text@ == first_entry_text(),
    {
        proof {
            reveal_strlit("volpi");
            reveal_strlit("foreleg_l");
            reveal_strlit("foreleg_r");
            reveal_strlit("mend_salve");
            reveal_strlit("vigor_draught");
            reveal_strlit("repair_kit");
            reveal_strlit("incendiary_rounds");
        }
        let mut profile = Profile::new("Rill", 120);

        let starter = profile.spawn_creature(data, "volpi", CreatureOrigin::Starter);
        let coil = profile.grant_graft("spark_coil", GraftCondition::Intact);
        let plate = profile.grant_graft("chitin_plate", GraftCondition::Intact);
        profile.grant_graft("healing_pod", GraftCondition::Intact);
        // A spare Bio-Electric barb — synergizes with the Volpi starter, and
        // teaches the element system on the very first bench visit.
        profile.grant_graft("static_barb", GraftCondition::Intact);

        // Starter consumables so the item systems are live from the first fight.
        profile.inventory.add_consumable("mend_salve", 2);
        assert(profile.inventory.consumables@ =~= map!["mend_salve"@ => 2u32]);
        assert("vigor_draught"@.len() != "mend_salve"@.len());
        assert("repair_kit"@[0] != "mend_salve"@[0] && "repair_kit"@[0] != "vigor_draught"@[0]);
        assert("incendiary_rounds"@.len() != "mend_salve"@.len() && "incendiary_rounds"@[0] != "vigor_draught"@[0]);
        assert("incendiary_rounds"@[0] != "repair_kit"@[0]);
        profile.inventory.add_consumable("vigor_draught", 1);
        assert(profile.inventory.consumables@ =~= map!["mend_salve"@ => 2u32, "vigor_draught"@ => 1u32]);
        profile.inventory.add_consumable("repair_kit", 1);
        assert(profile.inventory.consumables@ =~= map![
            "mend_salve"@ => 2u32, "vigor_draught"@ => 1u32, "repair_kit"@ => 1u32]);
        profile.inventory.add_consumable("incendiary_rounds", 2);
        assert(profile.inventory.consumables@ =~= map![
            "mend_salve"@ => 2u32, "vigor_draught"@ => 1u32, "repair_kit"@ => 1u32, "incendiary_rounds"@ => 2u32]);

        let ghost c0 = profile.roster.creatures@[0];
        let ghost cs_spawned = profile.roster.creatures@;
        let ghost inv0 = profile.inventory;
        let ghost coil_fits = CreatureInstance::mount_takes(data, &inv0, "volpi"@, "foreleg_l"@, 0, 2);
        let ghost plate_fits = CreatureInstance::mount_takes(data, &inv0, "volpi"@, "foreleg_r"@, 0, 3);
        assert(first_index(profile.roster.creatures@, creature_has_id(1)) == Some(0int));
        // Pre-graft the starter so the first fight is armed.
        let inventory = profile.inventory.clone();
        if let Some(creature) = profile.roster.creature_mut(starter) {
            let r1 = creature.equip(data, &inventory, "foreleg_l", 0, coil);
            assert(r1 is Ok <==> coil_fits);
            let ghost l1 = creature.loadout@;
            proof {
                assert("foreleg_l"@[8] != "foreleg_r"@[8]);
                assert(c0.loadout@.len() == 0);
                if r1 is Ok {
                    assert(l1.len() == 1);
                    assert(l1[0].limb_id@ == "foreleg_l"@);
                    assert(!assignment_is("foreleg_r"@, 0)(l1[0]));
                    crate::collections::lemma_first_index_none(l1, assignment_is("foreleg_r"@, 0));
                    assert(!loadout_uses(l1, 3));
                } else {
                    assert(l1.len() == 0);
                }
            }
            let r2 = creature.equip(data, &inventory, "foreleg_r", 0, plate);
            assert(r2 is Ok <==> plate_fits);
            assert(creature.loadout@.map_values(|m: MountAssignment| assignment_view(m))
                =~= (if coil_fits { seq![("foreleg_l"@, 0usize, 2u64)] } else { Seq::empty() })
                + (if plate_fits { seq![("foreleg_r"@, 0usize, 3u64)] } else { Seq::empty() }));
        }

        proof {
            assert(profile.roster.creatures@.len() == cs_spawned.len());
            assert(profile.roster.creatures@[0].id == cs_spawned[0].id);
            crate::model::party::lemma_party_slots_same_cores(data, cs_spawned, profile.roster.creatures@, profile.roster.party@);
        }
        let start = match data.world.map(data.world.start_map.as_str()) {
            Some(m) => m,
            None => vstd::pervasive::unreached(),
        };
        let mut journal: Vec<JournalEntry> = Vec::new();
        journal.push(JournalEntry {
            step: 0,
            text: "Took up the road \u{2014} no family waiting, so the Hollow spends me freely.".to_owned(),
        });

        GameSession {
            profile,
            pace: PaceSetting::Wait,
            battles_fought: 0,
            location: Location { map_id: start.id.clone(), x: start.spawn_x, y: start.spawn_y },
            steps: 0,
            world_state: WorldState::default(),
            story_flags: StrSet::new(),
            quests: QuestLog::default(),
            journal,
        }
    }
}

} // verus!
