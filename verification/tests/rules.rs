use iron_fauna::collections::{StrMap, StrSet};
use iron_fauna::combat::resolve::{apply, BattleRecord, FieldMount, FieldUnit};
use iron_fauna::combat::unit::{place_mounts, UnitSpec};
use iron_fauna::combat::{BattleContext, BattleOutcome, BattleRewards, Side, Stance};
use iron_fauna::data::balance::{BalanceConfig, SlotCost};
use iron_fauna::data::factory::FactoryDef;
use iron_fauna::data::graftware::{GraftKind, GraftwareDef};
use iron_fauna::data::quest::{QuestDef, QuestObjective, QuestObjectiveKind};
use iron_fauna::data::settlement::{DuelGraftFit, DuelUnitDef, DuelistDef, SettlementDef, ShopEntry};
use iron_fauna::data::species::{
    Element, LimbArchetype, LimbDef, LimbRegion, SizeClass, SpeciesDef, Temperament, WeightClass,
};
use iron_fauna::data::world::{
    DialogueCond, DialogueRule, DoorDef, DoorTarget, EncounterEntry, MapDef, MapKind, NpcDef, RegionDef,
    TileKind, WarpDef, WorldDef,
};
use iron_fauna::data::validation::factories::{validate_factories, validate_textures};
use iron_fauna::data::validation::world::validate_world;
use iron_fauna::data::validation::{
    map_coordinate, validate_balance, validate_watch_cost, validate_config, validate_graftware, validate_quests, validate_settlements,
    validate_species,
};
use iron_fauna::data::{GameConfig, GameData, RegionPack, TextureConfig};
use iron_fauna::model::creature::{CreatureInstance, CreatureOrigin, EquipError};
use iron_fauna::model::duel::{apply_duel_result, can_challenge, current_rank, eligible_stakes, PendingDuel};
use iron_fauna::model::inventory::{GraftCondition, GraftItem, Inventory};
use iron_fauna::model::party::{AcquireResult, Roster};
use iron_fauna::model::quest::{advance_subdue, complete, start};
use iron_fauna::model::story::{apply_dialogue_effects, select_dialogue};
use iron_fauna::model::worldstate::Verdict;
use iron_fauna::audio::Sfx;
use iron_fauna::game::overworld::{
    encounter_units, interact, pick_encounter, relapse_word, step, traversal_seed, StepOutcome, TraversalEvent,
};
use iron_fauna::game::{
    battle_seed, enter_building, finish_battle, heart_interact, Facility, TownView, party_unit_specs, settle_boss, start_duel, AfterBattle, BossKind, DuelStart, HeartAction,
    NoteTone,
};
use iron_fauna::model::warunit::war_unit_pool;
use iron_fauna::text::text_before;
use iron_fauna::model::Profile;
use iron_fauna::state::{GameSession, PaceSetting};

fn limb(id: &str, region: LimbRegion, mounts: Vec<WeightClass>) -> LimbDef {
    LimbDef { id: id.to_owned(), name: id.to_owned(), region, mounts }
}

fn species(id: &str, name: &str, size: SizeClass, power: u32, limbs: Vec<LimbDef>) -> SpeciesDef {
    SpeciesDef {
        id: id.to_owned(),
        name: name.to_owned(),
        description: String::new(),
        element: Element::BioElectric,
        size,
        temperament: Temperament::Gentle,
        archetype: LimbArchetype::Standard,
        power,
        speed: 50,
        natural_flight: false,
        innate_armor: 1,
        limbs,
        tier: 1,
        biomes: vec!["meadow".to_owned()],
    }
}

fn volpi() -> SpeciesDef {
    species(
        "volpi",
        "Volpi",
        SizeClass::Small,
        40,
        vec![
            limb("head", LimbRegion::Head, vec![]),
            limb("foreleg_l", LimbRegion::ArmLeft, vec![WeightClass::Light]),
            limb("foreleg_r", LimbRegion::ArmRight, vec![WeightClass::Light]),
            limb("hindlegs", LimbRegion::Legs, vec![]),
            limb("tail", LimbRegion::Tail, vec![WeightClass::Medium]),
        ],
    )
}

fn graft(id: &str, name: &str, kind: GraftKind, weight: WeightClass, min_power: u32, value: i64) -> GraftwareDef {
    GraftwareDef {
        id: id.to_owned(),
        name: name.to_owned(),
        description: String::new(),
        kind,
        weight,
        power_draw: 15,
        min_power,
        element: None,
        tier: 1,
        value,
    }
}

fn row(s: &str) -> String {
    s.to_owned()
}

fn town_map() -> MapDef {
    MapDef {
        id: "fernhollow".to_owned(),
        name: "Fernhollow".to_owned(),
        region: "verdant_hollow".to_owned(),
        rows: vec![row("#######"), row("#..s..#"), row("#.ggg.#"), row("#..D.,#"), row("#######")],
        spawn_x: 1,
        spawn_y: 1,
        encounter_rate_bits: 0x3e4c_cccd,
        encounters: vec![
            EncounterEntry { species: "bumblit".to_owned(), weight: 3, min: 1, max: 2 },
            EncounterEntry { species: "volpi".to_owned(), weight: 1, min: 1, max: 1 },
        ],
        warps: vec![WarpDef { x: 5, y: 3, to_map: "rot_causeway".to_owned(), to_x: 1, to_y: 1 }],
        doors: vec![DoorDef { x: 3, y: 1, target: DoorTarget::Ring, label: None }],
        npcs: vec![NpcDef {
            id: "quartermaster".to_owned(),
            x: 5,
            y: 1,
            name: "Quartermaster".to_owned(),
            lines: vec!["Keep your parts oiled.".to_owned()],
            dialogue: vec![],
        }],
        settlement: Some("fernhollow".to_owned()),
        kind: MapKind::Overworld,
        factory_id: None,
    }
}

fn causeway_map() -> MapDef {
    MapDef {
        id: "rot_causeway".to_owned(),
        name: "Rot Causeway".to_owned(),
        region: "verdant_hollow".to_owned(),
        rows: vec![row("####"), row("#..#"), row("#.H#"), row("####")],
        spawn_x: 1,
        spawn_y: 1,
        encounter_rate_bits: 0,
        encounters: vec![],
        warps: vec![],
        doors: vec![],
        npcs: vec![],
        settlement: None,
        kind: MapKind::Factory,
        factory_id: Some("the_cradle".to_owned()),
    }
}

fn unit(species: &str, name: Option<&str>, grafts: Vec<(&str, usize, &str)>) -> DuelUnitDef {
    DuelUnitDef {
        species: species.to_owned(),
        name: name.map(|n| n.to_owned()),
        grafts: grafts
            .into_iter()
            .map(|(l, s, g)| DuelGraftFit { limb: l.to_owned(), slot: s, graft: g.to_owned() })
            .collect(),
    }
}

fn duelist(id: &str, name: &str, rank_req: u32, practice: bool, stake: Option<&str>) -> DuelistDef {
    DuelistDef {
        id: id.to_owned(),
        name: name.to_owned(),
        blurb: String::new(),
        rank_req,
        practice,
        reward_scrip: 50,
        stake: stake.map(|s| s.to_owned()),
        min_stake_value: 20,
        party: vec![unit("volpi", None, vec![("foreleg_l", 0, "spark_coil")])],
    }
}

fn content() -> GameData {
    let mut species_reg = StrMap::new();
    species_reg.insert("volpi".to_owned(), volpi());
    species_reg.insert(
        "bumblit".to_owned(),
        species("bumblit", "Bumblit", SizeClass::Small, 20, vec![limb("body", LimbRegion::Back, vec![WeightClass::Light])]),
    );
    species_reg.insert(
        "ferrobruin".to_owned(),
        species(
            "ferrobruin",
            "Ferrobruin",
            SizeClass::Large,
            80,
            vec![limb("back", LimbRegion::Back, vec![WeightClass::Heavy, WeightClass::Medium])],
        ),
    );
    species_reg.insert(
        "weavil".to_owned(),
        species("weavil", "Weavil", SizeClass::Medium, 30, vec![limb("jaw", LimbRegion::Head, vec![WeightClass::Light])]),
    );
    let mut graftware = StrMap::new();
    graftware.insert("spark_coil".to_owned(), graft("spark_coil", "Spark Coil", GraftKind::Weapon, WeightClass::Light, 10, 40));
    graftware.insert("chitin_plate".to_owned(), graft("chitin_plate", "Chitin Plate", GraftKind::Armor, WeightClass::Light, 0, 30));
    graftware.insert("healing_pod".to_owned(), graft("healing_pod", "Healing Pod", GraftKind::Utility, WeightClass::Light, 0, 30));
    graftware.insert("static_barb".to_owned(), graft("static_barb", "Static Barb", GraftKind::Weapon, WeightClass::Light, 0, 25));
    graftware.insert("ember_spitter".to_owned(), graft("ember_spitter", "Ember Spitter", GraftKind::Weapon, WeightClass::Medium, 20, 90));
    graftware.insert("bolt_cannon".to_owned(), graft("bolt_cannon", "Bolt Cannon", GraftKind::Weapon, WeightClass::Heavy, 60, 300));
    let mut settlements = StrMap::new();
    settlements.insert(
        "fernhollow".to_owned(),
        SettlementDef {
            id: "fernhollow".to_owned(),
            name: "Fernhollow".to_owned(),
            region: "verdant_hollow".to_owned(),
            description: String::new(),
            shop: vec![ShopEntry { graft: "spark_coil".to_owned(), price: None }],
            duelists: vec![
                duelist("bruk", "Bruk", 0, false, Some("ember_spitter")),
                duelist("orla", "Orla", 1, true, None),
            ],
        },
    );
    let mut quests = StrMap::new();
    quests.insert(
        "morning_thinning".to_owned(),
        QuestDef {
            id: "morning_thinning".to_owned(),
            name: "Morning Thinning".to_owned(),
            giver: "Quartermaster".to_owned(),
            tracker: "Subdue wild creatures".to_owned(),
            objective: QuestObjective { kind: QuestObjectiveKind::SubdueWild, count: 3 },
            reward_scrip: 60,
            reward_grafts: vec!["static_barb".to_owned()],
        },
    );
    let mut factories = StrMap::new();
    factories.insert(
        "the_cradle".to_owned(),
        FactoryDef {
            id: "the_cradle".to_owned(),
            name: "The Cradle".to_owned(),
            region: "verdant_hollow".to_owned(),
            description: String::new(),
            floors: vec![causeway_map()],
            heart_guard: vec![unit("ferrobruin", Some("Cradle Warden"), vec![("back", 0, "bolt_cannon")])],
            rider_upgrade: "SteadyHands".to_owned(),
            grows: vec!["volpi".to_owned()],
            grow_cost: 200,
        },
    );
    GameData {
        config: GameConfig {
            game_name: "iron_fauna".to_owned(),
            display_name: "IRON FAUNA".to_owned(),
            save_slot: "main".to_owned(),
            version: "0.1.0".to_owned(),
        },
        balance: BalanceConfig {
            party_slot_budget: 6,
            party_slot_cost: SlotCost { small: 1, medium: 2, large: 3, huge: 4 },
        },
        species: species_reg,
        graftware,
        world: WorldDef {
            start_map: "fernhollow".to_owned(),
            regions: vec![RegionDef {
                id: "verdant_hollow".to_owned(),
                name: "Verdant Hollow".to_owned(),
                description: String::new(),
                tier: 1,
                gestarium_id: "the_cradle".to_owned(),
                biomes: vec!["meadow".to_owned()],
            }],
            maps: vec![town_map(), causeway_map()],
        },
        settlements,
        quests,
        factories,
        texture_manifest: vec![TextureConfig { key: "tiles".to_owned(), path: "assets/tiles.png".to_owned() }],
    }
}

fn creature(id: u64, species: &str) -> CreatureInstance {
    CreatureInstance::new(id, species, CreatureOrigin::Wild)
}

#[test]
fn party_budget_enforced_by_size() {
    let data = content();
    let mut roster = Roster::new();

    // Two Larges (3 + 3) fill the budget of 6.
    assert_eq!(roster.acquire(&data, creature(1, "ferrobruin")), AcquireResult::JoinedParty);
    assert_eq!(roster.acquire(&data, creature(2, "ferrobruin")), AcquireResult::JoinedParty);
    assert_eq!(roster.slots_free(&data), 0);

    // A third catch banks to storage instead.
    assert_eq!(roster.acquire(&data, creature(3, "volpi")), AcquireResult::SentToStorage);
    assert_eq!(roster.stored().len(), 1);

    // Swapping a Large out frees room for the Small.
    assert!(roster.remove_from_party(2));
    assert!(roster.add_to_party(&data, 3));
    assert_eq!(roster.slots_used(&data), 4);
}

#[test]
fn profile_spawns_creatures_with_unique_ids() {
    let data = content();
    let mut profile = Profile::new("Ash", 200);
    let a = profile.spawn_creature(&data, "volpi", CreatureOrigin::Starter);
    let b = profile.spawn_creature(&data, "bumblit", CreatureOrigin::Wild);
    let item = profile.grant_graft("spark_coil", GraftCondition::Intact);
    assert_ne!(a, b);
    assert_ne!(b, item);
    assert_eq!(profile.roster.party.len(), 2);
}

#[test]
fn new_game_arms_the_starter() {
    let data = content();
    let session = GameSession::new_game(&data);
    assert_eq!(session.profile.roster.party.len(), 1);
    let members = session.profile.roster.party_members();
    let starter = members[0];
    assert_eq!(starter.species_id, "volpi");
    assert!(!starter.loadout.is_empty());
    assert_eq!(session.pace, PaceSetting::Wait);
}

#[test]
fn new_game_starts_the_chronicle_and_the_bag() {
    let data = content();
    let session = GameSession::new_game(&data);
    assert_eq!(session.profile.rider.name, "Rill");
    assert_eq!(session.profile.inventory.scrip, 120);
    assert_eq!(session.profile.inventory.items.len(), 4);
    assert_eq!(session.profile.inventory.consumable_count("mend_salve"), 2);
    assert_eq!(session.profile.inventory.consumable_count("incendiary_rounds"), 2);
    // Coil on the left foreleg, plate on the right.
    assert_eq!(session.profile.roster.creatures[0].loadout.len(), 2);
    assert_eq!(session.location.map_id, "fernhollow");
    assert_eq!((session.location.x, session.location.y), (1, 1));
    assert_eq!(session.journal.len(), 1);
    assert_eq!(session.journal[0].text, "Took up the road — no family waiting, so the Hollow spends me freely.");
}

#[test]
fn repair_costs_scrip_and_restores_condition() {
    let data = content();
    let mut inv = Inventory::new(1000);
    inv.add(1, "spark_coil", GraftCondition::Damaged);

    assert!(inv.repair(&data, 1));
    assert_eq!(inv.item(1).unwrap().condition, GraftCondition::Intact);
    assert!(inv.scrip < 1000);
    // Half the value of 40.
    assert_eq!(inv.scrip, 980);

    // Repairing an intact item is a no-op failure.
    assert!(!inv.repair(&data, 1));
}

#[test]
fn repair_fails_when_broke() {
    let data = content();
    let mut inv = Inventory::new(0);
    inv.add(1, "bolt_cannon", GraftCondition::Damaged);
    assert!(!inv.repair(&data, 1));
    assert_eq!(inv.item(1).unwrap().condition, GraftCondition::Damaged);
}

#[test]
fn repair_of_cheap_parts_costs_the_floor() {
    let mut data = content();
    data.graftware.insert("trinket".to_owned(), graft("trinket", "Trinket", GraftKind::Utility, WeightClass::Light, 0, 6));
    let mut inv = Inventory::new(5);
    inv.add(7, "trinket", GraftCondition::Damaged);
    assert!(inv.repair(&data, 7));
    assert_eq!(inv.scrip, 0);
}

fn equip_setup() -> (GameData, Inventory, CreatureInstance) {
    let data = content();
    let mut inv = Inventory::new(100);
    inv.items.push(GraftItem { id: 1, def_id: "spark_coil".to_owned(), condition: GraftCondition::Intact });
    inv.items.push(GraftItem { id: 2, def_id: "bolt_cannon".to_owned(), condition: GraftCondition::Intact });
    let creature = CreatureInstance::new(10, "volpi", CreatureOrigin::Starter);
    (data, inv, creature)
}

#[test]
fn equip_respects_weight_class_and_power_floor() {
    let (data, inv, mut volpi) = equip_setup();
    // Light coil on a light mount: fine.
    volpi.equip(&data, &inv, "foreleg_l", 0, 1).unwrap();
    // Heavy cannon on a light mount: rejected for weight (and power).
    let err = volpi.equip(&data, &inv, "foreleg_r", 0, 2).unwrap_err();
    assert!(matches!(err, EquipError::TooHeavy));
    // Same slot twice: rejected.
    let err = volpi.equip(&data, &inv, "foreleg_l", 0, 1).unwrap_err();
    assert!(matches!(err, EquipError::SlotOccupied));
}

#[test]
fn equip_reports_each_refusal() {
    let (mut data, mut inv, mut volpi) = equip_setup();
    assert_eq!(volpi.equip(&data, &inv, "wing", 0, 1), Err(EquipError::NoSuchMount));
    assert_eq!(volpi.equip(&data, &inv, "foreleg_l", 1, 1), Err(EquipError::NoSuchMount));
    assert_eq!(volpi.equip(&data, &inv, "foreleg_l", 0, 99), Err(EquipError::NoSuchItem));
    data.graftware.insert("hexfang".to_owned(), graft("hexfang", "Hexfang", GraftKind::Weapon, WeightClass::Medium, 55, 80));
    inv.add(3, "hexfang", GraftCondition::Intact);
    assert_eq!(volpi.equip(&data, &inv, "tail", 0, 3), Err(EquipError::PowerFloor(55)));
    volpi.equip(&data, &inv, "foreleg_l", 0, 1).unwrap();
    assert_eq!(volpi.equip(&data, &inv, "tail", 0, 1), Err(EquipError::AlreadyEquipped));
    assert_eq!(EquipError::PowerFloor(55).message(), "Needs Power 55");
    assert_eq!(EquipError::SlotOccupied.message(), "Mount already occupied");
    assert_eq!(volpi.unequip("foreleg_l", 0), Some(1));
    assert!(volpi.loadout.is_empty());
}

fn duelist_of<'a>(data: &'a GameData, settlement: &str, id: &str) -> &'a DuelistDef {
    data.settlements.get(settlement).unwrap().duelist(id).unwrap()
}

#[test]
fn protected_loadout_floor_excludes_equipped_parts() {
    let data = content();
    let session = GameSession::new_game(&data);
    // The starter's spark coil is equipped, so it can't be staked.
    let eligible = eligible_stakes(&session, &data, 0);
    let equipped = session.profile.equipped_item_ids();
    assert!(eligible.iter().all(|id| !equipped.contains(id)));
    // The unequipped healing pod qualifies once value allows.
    assert!(!eligible.is_empty());
    // A sky-high floor filters everything out.
    assert!(eligible_stakes(&session, &data, 100_000).is_empty());
}

#[test]
fn winning_a_staked_duel_transfers_the_stake_and_rank() {
    let data = content();
    let mut session = GameSession::new_game(&data);
    let bruk = duelist_of(&data, "fernhollow", "bruk").clone();
    let items_before = session.profile.inventory.items.len();
    let scrip_before = session.profile.inventory.scrip;

    let pending = PendingDuel { settlement_id: "fernhollow".to_owned(), duelist_id: "bruk".to_owned(), my_stake: None };
    let lines = apply_duel_result(&mut session, &data, &pending, &bruk, true);

    assert_eq!(session.profile.inventory.items.len(), items_before + 1);
    assert_eq!(session.profile.inventory.scrip, scrip_before + bruk.reward_scrip);
    assert_eq!(current_rank(&session, "fernhollow"), bruk.rank_req + 1);
    assert!(lines.iter().any(|l| l.contains("Ember Spitter")));
    assert_eq!(
        lines,
        vec![
            "Bruk yields — 50 scrip".to_owned(),
            "Won the stake: Ember Spitter".to_owned(),
            "Ring rank is now 1".to_owned(),
        ]
    );
}

#[test]
fn losing_a_staked_duel_forfeits_your_part() {
    let data = content();
    let mut session = GameSession::new_game(&data);
    let bruk = duelist_of(&data, "fernhollow", "bruk").clone();
    let staked = session.profile.grant_graft("bolt_cannon", GraftCondition::Intact);
    let items_before = session.profile.inventory.items.len();
    let creatures_before = session.profile.roster.creatures.len();

    let pending =
        PendingDuel { settlement_id: "fernhollow".to_owned(), duelist_id: "bruk".to_owned(), my_stake: Some(staked) };
    let lines = apply_duel_result(&mut session, &data, &pending, &bruk, false);

    assert_eq!(session.profile.inventory.items.len(), items_before - 1);
    assert!(session.profile.inventory.item(staked).is_none());
    assert_eq!(current_rank(&session, "fernhollow"), 0);
    assert_eq!(lines, vec!["Lost the stake: Bolt Cannon".to_owned()]);
    assert_eq!(session.profile.roster.creatures.len(), creatures_before);
}

#[test]
fn practice_loss_costs_only_pride() {
    let data = content();
    let mut session = GameSession::new_game(&data);
    let orla = duelist_of(&data, "fernhollow", "orla").clone();
    let pending = PendingDuel { settlement_id: "fernhollow".to_owned(), duelist_id: "orla".to_owned(), my_stake: None };
    let lines = apply_duel_result(&mut session, &data, &pending, &orla, false);
    assert_eq!(lines, vec!["A practice loss costs nothing but pride.".to_owned()]);
}

#[test]
fn rank_gates_challenges() {
    let data = content();
    let mut session = GameSession::new_game(&data);
    let orla = duelist_of(&data, "fernhollow", "orla").clone();
    assert!(!can_challenge(&session, "fernhollow", &orla));
    session.profile.rider.duel_ranks.insert("fernhollow".to_owned(), 1);
    assert!(can_challenge(&session, "fernhollow", &orla));
}

#[test]
fn quest_runs_offer_to_reward() {
    let data = content();
    let mut session = GameSession::new_game(&data);
    let id = "morning_thinning";
    let count = data.quests.get(id).unwrap().objective.count;

    assert!(session.quests.is_untaken(id));
    assert!(start(&mut session, &data, id).is_some());
    assert!(session.quests.is_active(id));
    // Starting again is a no-op.
    assert!(start(&mut session, &data, id).is_none());

    // One short of the goal: still active, not ready.
    advance_subdue(&mut session, &data, count - 1);
    assert!(session.quests.is_active(id));
    assert!(!session.quests.is_ready(id));

    // The step that meets the objective flips it to ready.
    let notes = advance_subdue(&mut session, &data, 1);
    assert!(!notes.is_empty());
    assert!(session.quests.is_ready(id));

    let scrip_before = session.profile.inventory.scrip;
    let reward = complete(&mut session, &data, id);
    assert!(!reward.is_empty());
    assert!(session.quests.is_done(id));
    assert!(session.profile.inventory.scrip > scrip_before);
    assert_eq!(reward, vec!["Received 60 scrip".to_owned(), "Received: Static Barb".to_owned()]);
    // A finished quest is neither active nor ready any more.
    assert!(!session.quests.is_active(id) && !session.quests.is_ready(id));
    assert!(!session.quests.is_untaken(id));
}

fn npc_with_rules(rules: Vec<DialogueRule>) -> NpcDef {
    NpcDef { id: "test".into(), x: 0, y: 0, name: "Test".into(), lines: vec!["fallback".into()], dialogue: rules }
}

fn rule(when: Option<DialogueCond>, line: &str) -> DialogueRule {
    DialogueRule {
        when,
        lines: vec![line.to_owned()],
        set_flags: vec![],
        give_scrip: 0,
        give_grafts: vec![],
        start_quest: None,
        complete_quest: None,
    }
}

#[test]
fn dialogue_reacts_to_flags_and_verdicts() {
    let data = content();
    let mut session = GameSession::new_game(&data);
    let npc = npc_with_rules(vec![
        rule(Some(DialogueCond { verdict: Some(("the_cradle".into(), "Purge".into())), ..Default::default() }), "after purge"),
        rule(Some(DialogueCond { flags_all: vec!["met".into()], ..Default::default() }), "again"),
    ]);

    // Neither flag nor verdict yet: the fallback lines answer.
    assert_eq!(select_dialogue(&npc, &session).unwrap().lines[0], "fallback");

    session.story_flags.insert("met".into());
    assert_eq!(select_dialogue(&npc, &session).unwrap().lines[0], "again");

    // A verdict outranks the flag rule (listed first).
    let mut state = session.world_state.factory("the_cradle");
    state.verdict = Some(Verdict::Purge);
    session.world_state.set_factory("the_cradle", state);
    assert_eq!(select_dialogue(&npc, &session).unwrap().lines[0], "after purge");
}

#[test]
fn effects_grant_once_when_gated_by_flags() {
    let data = content();
    let mut session = GameSession::new_game(&data);
    let reward = DialogueRule {
        when: Some(DialogueCond { flags_none: vec!["paid".into()], ..Default::default() }),
        lines: vec!["here, take this".into()],
        set_flags: vec!["paid".into()],
        give_scrip: 100,
        give_grafts: vec!["spark_coil".into()],
        start_quest: None,
        complete_quest: None,
    };
    let npc = npc_with_rules(vec![reward]);

    let scrip_before = session.profile.inventory.scrip;
    let items_before = session.profile.inventory.items.len();
    let selection = select_dialogue(&npc, &session).unwrap();
    let rule = selection.rule.unwrap().clone();
    let notes = apply_dialogue_effects(&rule, &mut session, &data);
    assert_eq!(session.profile.inventory.scrip, scrip_before + 100);
    assert_eq!(session.profile.inventory.items.len(), items_before + 1);
    assert_eq!(notes.len(), 2);

    // Flag now set: the reward rule no longer matches.
    assert_eq!(select_dialogue(&npc, &session).unwrap().lines[0], "fallback");
}

#[test]
fn victory_grants_captures_salvage_and_scrip() {
    let data = content();
    let mut session = GameSession::new_game(&data);
    let scrip_before = session.profile.inventory.scrip;
    let creatures_before = session.profile.roster.creatures.len();
    let items_before = session.profile.inventory.items.len();

    let battle = BattleRecord {
        context: BattleContext::WildSubdue,
        outcome: Some(BattleOutcome::Victory(BattleRewards {
            captured_species: vec!["bumblit".to_owned()],
            salvage: vec!["spark_coil".to_owned()],
            scrip: 25,
        })),
        bag: session.profile.inventory.consumables.clone(),
        units: vec![
            FieldUnit { side: Side::Player, creature_id: session.profile.roster.party.first().copied(), mounts: vec![] },
            FieldUnit { side: Side::Enemy, creature_id: None, mounts: vec![] },
        ],
    };

    let summary = apply(&mut session, &data, &battle);
    assert_eq!(session.profile.roster.creatures.len(), creatures_before + 1);
    assert_eq!(session.profile.inventory.items.len(), items_before + 1);
    assert_eq!(session.profile.inventory.scrip, scrip_before + 25);
    assert!(!summary.lines.is_empty());
    assert_eq!(session.battles_fought, 1);
    assert_eq!(summary.bonded, vec![1]);
    assert_eq!(
        summary.lines,
        vec![
            "Bumblit subdued and befriended".to_owned(),
            "Salvaged: Spark Coil".to_owned(),
            "Earned 25 scrip".to_owned(),
        ]
    );
}

#[test]
fn lost_grafts_come_home_damaged_and_leave_the_loadout() {
    let data = content();
    let mut session = GameSession::new_game(&data);
    let starter = session.profile.roster.party[0];
    let coil = session.profile.roster.creatures[0].loadout[0].item_id;
    let mut bag = StrMap::new();
    bag.insert("mend_salve".to_owned(), 1);
    let battle = BattleRecord {
        context: BattleContext::FactoryDismantle,
        outcome: Some(BattleOutcome::Fled),
        bag,
        units: vec![FieldUnit {
            side: Side::Player,
            creature_id: Some(starter),
            mounts: vec![FieldMount { item_id: Some(coil), destroyed: true, detached: false }],
        }],
    };
    let summary = apply(&mut session, &data, &battle);
    assert_eq!(
        summary.lines,
        vec!["Spark Coil needs repair".to_owned(), "Every core cracked — you fled and escaped.".to_owned()]
    );
    assert_eq!(session.profile.inventory.item(coil).unwrap().condition, GraftCondition::Damaged);
    assert!(session.profile.roster.creatures[0].loadout.iter().all(|m| m.item_id != coil));
    assert_eq!(session.profile.inventory.consumable_count("mend_salve"), 1);
    assert_eq!(session.profile.inventory.consumable_count("vigor_draught"), 0);
}

#[test]
fn unfinished_battle_changes_nothing() {
    let data = content();
    let mut session = GameSession::new_game(&data);
    let battle = BattleRecord {
        context: BattleContext::Duel,
        outcome: None,
        bag: StrMap::new(),
        units: vec![],
    };
    let summary = apply(&mut session, &data, &battle);
    assert!(summary.lines.is_empty());
    assert_eq!(session.battles_fought, 0);
    assert_eq!(session.profile.inventory.consumable_count("mend_salve"), 2);
}

fn spec(species: &str, side: Side, grafts: Vec<(&str, usize, &str)>) -> UnitSpec {
    UnitSpec {
        species_id: species.to_owned(),
        name: species.to_owned(),
        side,
        creature_id: None,
        bond_bits: 0,
        stance: Stance::Aggressive,
        grafts: grafts.into_iter().map(|(l, s, d)| (l.to_owned(), s, d.to_owned(), None)).collect(),
    }
}

#[test]
fn build_wires_limbs_and_mounts() {
    let data = content();
    let placed = place_mounts(&spec("volpi", Side::Player, vec![("foreleg_l", 0, "spark_coil")]), &data).unwrap();
    assert_eq!(placed.len(), 1);
    assert_eq!(placed[0].limb_index, 1);
    assert_eq!(placed[0].def_id, "spark_coil");
}

#[test]
fn heavy_graft_on_light_mount_is_rejected() {
    let data = content();
    let err = place_mounts(&spec("volpi", Side::Player, vec![("foreleg_l", 0, "bolt_cannon")]), &data);
    assert_eq!(err.unwrap_err(), "bolt_cannon too heavy for foreleg_l/0");
}

#[test]
fn placement_names_each_failure() {
    let data = content();
    assert_eq!(place_mounts(&spec("gryphon", Side::Enemy, vec![]), &data).unwrap_err(), "unknown species gryphon");
    assert_eq!(
        place_mounts(&spec("volpi", Side::Enemy, vec![("wing", 0, "spark_coil")]), &data).unwrap_err(),
        "volpi: no limb wing"
    );
    assert_eq!(
        place_mounts(&spec("volpi", Side::Enemy, vec![("head", 0, "spark_coil")]), &data).unwrap_err(),
        "volpi: no mount head/0"
    );
    assert_eq!(
        place_mounts(&spec("volpi", Side::Enemy, vec![("tail", 0, "laser")]), &data).unwrap_err(),
        "unknown graftware laser"
    );
}

#[test]
fn content_fixture_passes_every_check() {
    let data = content();
    assert_eq!(validate_config(&data.config), Ok(()));
    assert_eq!(validate_balance(&data.balance), Ok(()));
    assert_eq!(validate_species(&data), Ok(()));
    assert_eq!(validate_graftware(&data), Ok(()));
    assert_eq!(validate_quests(&data), Ok(()));
    assert_eq!(validate_world(&data), Ok(()));
    assert_eq!(validate_settlements(&data), Ok(()));
    assert_eq!(validate_factories(&data), Ok(()));
    assert_eq!(validate_textures(&data.texture_manifest), Ok(()));
}

#[test]
fn config_and_balance_problems_are_named() {
    let mut data = content();
    data.config.save_slot = "  ".to_owned();
    assert_eq!(validate_config(&data.config), Err("content validation: game_config.save_slot is empty".to_owned()));
    data.balance.party_slot_cost.large = 7;
    assert_eq!(
        validate_balance(&data.balance),
        Err("content validation: balance.party_slot_cost.large must fit the party budget".to_owned())
    );
    data.balance.party_slot_budget = 0;
    assert_eq!(validate_balance(&data.balance), Err("content validation: balance.party_slot_budget must be > 0".to_owned()));
}

#[test]
fn species_problems_are_named() {
    let mut data = content();
    let mut bad = volpi();
    bad.limbs.push(limb("tail", LimbRegion::Tail, vec![]));
    data.species.insert("volpi".to_owned(), bad);
    assert_eq!(validate_species(&data), Err("content validation: species 'volpi' has duplicate or empty limb id".to_owned()));
    let mut heavy = volpi();
    heavy.limbs[1].mounts = vec![WeightClass::Light, WeightClass::Light, WeightClass::Light];
    data.species.insert("volpi".to_owned(), heavy);
    assert_eq!(
        validate_species(&data),
        Err("content validation: species 'volpi' limb 'foreleg_l' has over two mounts".to_owned())
    );
    let mut flier = volpi();
    flier.archetype = LimbArchetype::Flier;
    data.species.insert("volpi".to_owned(), flier);
    assert_eq!(
        validate_species(&data),
        Err("content validation: flier species 'volpi' has invalid flight or mount count".to_owned())
    );
    let mut strong = volpi();
    strong.power = 101;
    data.species.insert("volpi".to_owned(), strong);
    assert_eq!(
        validate_species(&data),
        Err("content validation: species 'volpi' has invalid power, speed, or tier".to_owned())
    );
}

#[test]
fn quest_graft_and_settlement_problems_are_named() {
    let mut data = content();
    let mut q = data.quests.get("morning_thinning").unwrap().clone();
    q.reward_grafts.push("laser".to_owned());
    data.quests.insert("morning_thinning".to_owned(), q);
    assert_eq!(
        validate_quests(&data),
        Err("content validation: quest 'morning_thinning' references unknown graftware 'laser'".to_owned())
    );
    let mut g = data.graftware.get("spark_coil").unwrap().clone();
    g.power_draw = 0;
    data.graftware.insert("spark_coil".to_owned(), g);
    assert_eq!(
        validate_graftware(&data),
        Err("content validation: graftware 'spark_coil' has invalid identity or balance".to_owned())
    );
    let mut data = content();
    let mut s = data.settlements.get("fernhollow").unwrap().clone();
    s.duelists[0].party[0].grafts.push(DuelGraftFit { limb: "foreleg_l".to_owned(), slot: 0, graft: "static_barb".to_owned() });
    data.settlements.insert("fernhollow".to_owned(), s);
    assert_eq!(
        validate_settlements(&data),
        Err("content validation: duelist 'bruk' mounts two grafts at 'foreleg_l'/0".to_owned())
    );
    let mut s = data.settlements.get("fernhollow").unwrap().clone();
    s.duelists[0].stake = None;
    data.settlements.insert("fernhollow".to_owned(), s);
    assert_eq!(
        validate_settlements(&data),
        Err("content validation: duelist 'bruk' in 'fernhollow' has incomplete setup".to_owned())
    );
}

#[test]
fn world_problems_are_named() {
    let mut data = content();
    data.world.maps[0].rows[2] = row("#.ggg#");
    assert_eq!(validate_world(&data), Err("content validation: map 'fernhollow' has empty or ragged rows".to_owned()));
    let mut data = content();
    data.world.maps[0].rows[2] = row("#.gZg.#");
    assert_eq!(validate_world(&data), Err("content validation: map 'fernhollow' has an unknown tile".to_owned()));
    let mut data = content();
    data.world.maps[0].spawn_x = 9;
    assert_eq!(
        validate_world(&data),
        Err("content validation: map 'fernhollow' spawn coordinate (9,1) is outside 7x5".to_owned())
    );
    let mut data = content();
    data.world.maps[0].warps[0].to_map = "nowhere".to_owned();
    assert_eq!(
        validate_world(&data),
        Err("content validation: map 'fernhollow' warps to unknown map 'nowhere'".to_owned())
    );
    let mut data = content();
    data.world.maps[0].encounter_rate_bits = 0xbf80_0000;
    assert_eq!(validate_world(&data), Err("content validation: map 'fernhollow' has invalid encounter rate".to_owned()));
    let mut data = content();
    data.world.maps[0].npcs[0].lines.clear();
    assert_eq!(validate_world(&data), Err("content validation: NPC 'quartermaster' has no dialogue".to_owned()));
    let mut data = content();
    data.world.start_map = "void".to_owned();
    assert_eq!(validate_world(&data), Err("content validation: start map 'void' does not exist".to_owned()));
    let mut data = content();
    data.world.regions[0].tier = 9;
    assert_eq!(
        validate_world(&data),
        Err("content validation: region 'verdant_hollow' has invalid tier or factory 'the_cradle'".to_owned())
    );
}

#[test]
fn factory_and_texture_problems_are_named() {
    let mut data = content();
    let mut f = data.factories.get("the_cradle").unwrap().clone();
    f.floors[0].rows = vec![row("####"), row("#..#"), row("####")];
    data.factories.insert("the_cradle".to_owned(), f);
    assert_eq!(
        validate_factories(&data),
        Err("content validation: factory 'the_cradle' has a heartless deepest floor".to_owned())
    );
    let mut f = data.factories.get("the_cradle").unwrap().clone();
    f.floors = vec![causeway_map()];
    f.heart_guard[0].grafts[0].slot = 5;
    data.factories.insert("the_cradle".to_owned(), f);
    assert_eq!(
        validate_factories(&data),
        Err("content validation: factory 'the_cradle' guard references missing mount 'back'/5".to_owned())
    );
    let textures = vec![
        TextureConfig { key: "tiles".to_owned(), path: "a.png".to_owned() },
        TextureConfig { key: "tiles".to_owned(), path: "b.png".to_owned() },
    ];
    assert_eq!(
        validate_textures(&textures),
        Err("content validation: texture manifest has duplicate or empty key 'tiles'".to_owned())
    );
}

#[test]
fn map_coordinate_reports_bounds() {
    let map = town_map();
    assert_eq!(map_coordinate(&map, 6, 4, "door"), Ok(()));
    assert_eq!(
        map_coordinate(&map, -1, 0, "NPC"),
        Err("content validation: map 'fernhollow' NPC coordinate (-1,0) is outside 7x5".to_owned())
    );
}

#[test]
fn party_specs_carry_usable_grafts_only() {
    let data = content();
    let mut session = GameSession::new_game(&data);
    let specs = party_unit_specs(&session, &data);
    assert_eq!(specs.len(), 1);
    assert_eq!(specs[0].name, "Volpi");
    assert_eq!(specs[0].side, Side::Player);
    assert_eq!(specs[0].grafts.len(), 2);
    assert_eq!(specs[0].grafts[0], ("foreleg_l".to_owned(), 0, "spark_coil".to_owned(), Some(2)));
    session.profile.inventory.mark_damaged(2);
    let specs = party_unit_specs(&session, &data);
    assert_eq!(specs[0].grafts, vec![("foreleg_r".to_owned(), 0, "chitin_plate".to_owned(), Some(3))]);
}

#[test]
fn duels_open_only_for_ranked_and_staked_challengers() {
    let data = content();
    let mut session = GameSession::new_game(&data);
    assert!(matches!(start_duel(&session, &data, "fernhollow", "nobody", None), DuelStart::Unknown));
    assert!(matches!(start_duel(&session, &data, "fernhollow", "orla", None), DuelStart::NotAllowed));
    assert!(matches!(start_duel(&session, &data, "fernhollow", "bruk", None), DuelStart::NeedsStake));
    match start_duel(&session, &data, "fernhollow", "bruk", Some(4)) {
        DuelStart::Ready { pending, enemy } => {
            assert_eq!(
                pending,
                PendingDuel { settlement_id: "fernhollow".to_owned(), duelist_id: "bruk".to_owned(), my_stake: Some(4) }
            );
            assert_eq!(enemy.len(), 1);
            assert_eq!(enemy[0].name, "Bruk's creature");
            assert_eq!(enemy[0].side, Side::Enemy);
        },
        _ => panic!("bruk should accept a staked challenge"),
    }
    session.profile.rider.duel_ranks.insert("fernhollow".to_owned(), 1);
    assert!(matches!(start_duel(&session, &data, "fernhollow", "orla", None), DuelStart::Ready { .. }));
}

#[test]
fn factory_hearts_follow_the_ledger() {
    let data = content();
    let mut session = GameSession::new_game(&data);
    match heart_interact(&session, &data, "the_cradle") {
        HeartAction::FightHeart(enemy) => assert_eq!(enemy[0].name, "Cradle Warden"),
        _ => panic!("a live heart defends itself"),
    }
    assert!(matches!(heart_interact(&session, &data, "nowhere"), HeartAction::Nothing));
    let settled = settle_boss(&mut session, &data, "the_cradle", BossKind::Heart);
    assert_eq!(settled.notice, None);
    assert_eq!(settled.upgrade, Some("SteadyHands".to_owned()));
    assert!(session.profile.rider.has("SteadyHands"));
    // An upgrade is earned once.
    let mut again = GameSession::new_game(&data);
    again.profile.rider.grant("SteadyHands");
    assert_eq!(settle_boss(&mut again, &data, "the_cradle", BossKind::Heart).upgrade, None);
    assert!(session.world_state.factory("the_cradle").heart_defeated);
    assert_eq!(session.journal.last().unwrap().text, "Cracked the heart of The Cradle and freed what it held.");
    assert!(matches!(heart_interact(&session, &data, "the_cradle"), HeartAction::OpenVerdict));
    let mut state = session.world_state.factory("the_cradle");
    state.verdict = Some(Verdict::Bind);
    session.world_state.set_factory("the_cradle", state);
    assert!(matches!(heart_interact(&session, &data, "the_cradle"), HeartAction::OpenGrow));
    state.verdict = Some(Verdict::Reseed);
    state.relapsed = true;
    session.world_state.set_factory("the_cradle", state);
    match heart_interact(&session, &data, "the_cradle") {
        HeartAction::FightKeeper(enemy) => assert_eq!(enemy[0].name, "Relapsed Cradle Warden"),
        _ => panic!("a relapsed region has a keeper"),
    }
    let settled = settle_boss(&mut session, &data, "the_cradle", BossKind::Relapse);
    assert_eq!(settled.upgrade, None);
    assert_eq!(
        settled.notice,
        Some("The new keeper yields. The region breathes again — watch it closer this time.".to_owned())
    );
    assert!(!session.world_state.factory("the_cradle").relapsed);
    assert!(matches!(heart_interact(&session, &data, "the_cradle"), HeartAction::Still));
}

#[test]
fn walking_follows_the_map() {
    let data = content();
    let mut session = GameSession::new_game(&data);
    // Walls stop the rider.
    assert!(matches!(step(&data, &mut session, (0, -1)), StepOutcome::Blocked));
    assert_eq!(session.steps, 0);
    // Onto tall grass: a wild tile.
    assert!(matches!(step(&data, &mut session, (1, 1)), StepOutcome::Walked { wild: true }));
    assert_eq!((session.location.x, session.location.y, session.steps), (2, 2, 1));
    // Up onto the settlement door: the ring opens.
    assert!(matches!(step(&data, &mut session, (1, -1)), StepOutcome::Door(DoorTarget::Ring)));
    // Back down and across to the warp.
    assert!(matches!(step(&data, &mut session, (0, 1)), StepOutcome::Walked { wild: true }));
    assert!(matches!(step(&data, &mut session, (1, 1)), StepOutcome::Walked { wild: false }));
    assert!(matches!(step(&data, &mut session, (1, 0)), StepOutcome::Warped));
    assert_eq!(session.location.map_id, "rot_causeway");
    assert_eq!((session.location.x, session.location.y), (1, 1));
}

#[test]
fn corners_cannot_be_cut() {
    let mut data = content();
    data.world.maps[0].rows[1] = row("#.#s..#");
    data.world.maps[0].rows[2] = row("##ggg.#");
    let mut session = GameSession::new_game(&data);
    // From (1,1) the diagonal to (2,2) squeezes between two walls.
    assert!(matches!(step(&data, &mut session, (1, 1)), StepOutcome::Blocked));
    assert_eq!((session.location.x, session.location.y, session.steps), (1, 1, 0));
}

#[test]
fn facing_people_doors_and_hearts() {
    let data = content();
    let mut session = GameSession::new_game(&data);
    session.location.x = 4;
    session.location.y = 1;
    let talk = interact(&data, &mut session, (1, 0));
    assert!(matches!(talk.event, TraversalEvent::Continue));
    let offer = talk.dialogue.unwrap();
    assert_eq!(offer.name, "Quartermaster");
    assert_eq!(offer.lines, vec!["Keep your parts oiled.".to_owned()]);
    assert!(offer.on_close.is_none());
    // The gestarium door at (3,3) has no warp: it is sealed.
    session.location.x = 2;
    session.location.y = 3;
    let sealed = interact(&data, &mut session, (1, 0));
    assert_eq!(sealed.dialogue.unwrap().name, "Sealed Doors");
    // The heart on the factory floor.
    session.location.map_id = "rot_causeway".to_owned();
    session.location.x = 1;
    session.location.y = 2;
    match interact(&data, &mut session, (1, 0)).event {
        TraversalEvent::HeartInteract(id) => assert_eq!(id, "the_cradle"),
        _ => panic!("the heart should answer"),
    }
}

#[test]
fn encounters_pick_by_weight() {
    let map = town_map();
    assert_eq!(pick_encounter(&map, 0), Some(0));
    assert_eq!(pick_encounter(&map, 2), Some(0));
    assert_eq!(pick_encounter(&map, 3), Some(1));
    assert_eq!(pick_encounter(&map, 7), Some(1));
    let empty = causeway_map();
    assert_eq!(pick_encounter(&empty, 5), None);
    let data = content();
    let pack = encounter_units(&data, &map.encounters[0], 2, false, &vec![]).unwrap();
    assert_eq!(pack.len(), 2);
    assert_eq!(pack[0].name, "wild Bumblit 1");
    assert_eq!(pack[1].name, "wild Bumblit 2");
    let outfit = vec![vec![("body".to_owned(), 0, "static_barb".to_owned(), None)]];
    let armed = encounter_units(&data, &map.encounters[0], 1, true, &outfit).unwrap();
    assert_eq!(armed[0].name, "war-unit Bumblit");
    assert_eq!(armed[0].grafts, outfit[0]);
}

#[test]
fn war_units_are_always_legal_and_deterministic() {
    let data = content();
    let ferro = data.species.get("ferrobruin").unwrap();
    let heavy = war_unit_pool(ferro, &data, 1, WeightClass::Heavy, GraftKind::Weapon);
    assert_eq!(heavy, war_unit_pool(ferro, &data, 1, WeightClass::Heavy, GraftKind::Weapon));
    assert_eq!(heavy, vec!["bolt_cannon", "ember_spitter", "spark_coil", "static_barb"]);
    let bumblit = data.species.get("bumblit").unwrap().clone();
    let light_util = war_unit_pool(&bumblit, &data, 1, WeightClass::Light, GraftKind::Utility);
    assert_eq!(light_util, vec!["healing_pod"]);
    // No utility the chassis can wield? Then anything that fits the mount does.
    let mut weak = content();
    weak.graftware.insert("healing_pod".to_owned(), graft("healing_pod", "Healing Pod", GraftKind::Utility, WeightClass::Light, 99, 30));
    let fallback = war_unit_pool(&bumblit, &weak, 1, WeightClass::Light, GraftKind::Utility);
    assert_eq!(fallback, vec!["chitin_plate", "spark_coil", "static_barb"]);
    // Every candidate can actually be placed on that mount.
    for id in &heavy {
        let spec = UnitSpec {
            species_id: "ferrobruin".to_owned(),
            name: "Ferrobruin".to_owned(),
            side: Side::Enemy,
            creature_id: None,
            bond_bits: 0,
            stance: Stance::Aggressive,
            grafts: vec![("back".to_owned(), 0, id.clone(), None)],
        };
        assert!(place_mounts(&spec, &data).is_ok(), "{}: illegal war unit", id);
    }
}

#[test]
fn text_order_matches_str_order() {
    assert!(text_before("bolt", "spark"));
    assert!(text_before("spar", "spark"));
    assert!(!text_before("spark", "spark"));
    assert!(!text_before("z", "a"));
}

#[test]
fn sound_bank_files() {
    assert_eq!(Sfx::Hit.file(), "assets/sfx/hit.wav");
    assert_eq!(Sfx::all().len(), 7);
    assert_eq!(Sfx::all()[6], Sfx::Reject);
    assert_eq!(Sfx::Hit.volume_percent(), 50);
    assert_eq!(Sfx::Select.volume_percent(), 70);
    assert_eq!(Sfx::Crack.volume_percent(), 90);
    assert_eq!(Sfx::Deny.volume_percent(), 80);
}

#[test]
fn small_vocabulary() {
    assert_eq!(Side::Player.opponent(), Side::Enemy);
    assert_eq!(Stance::Defensive.display_name(), "Defensive");
    assert_eq!(PaceSetting::Wait.toggled(), PaceSetting::Active);
    assert_eq!(TileKind::from_char('H'), Some(TileKind::Heart));
    assert!(!TileKind::Heart.walkable());
    assert!(TileKind::VatSpill.encounter_prone());
}

#[test]
fn region_packs_join_the_world_and_replace_by_id() {
    let mut data = content();
    let mut marsh = causeway_map();
    marsh.id = "marsh".to_owned();
    marsh.kind = MapKind::Overworld;
    marsh.factory_id = None;
    let mut fen = data.settlements.get("fernhollow").unwrap().clone();
    fen.name = "Fernhollow Rebuilt".to_owned();
    let mut bog = fen.clone();
    bog.id = "bogside".to_owned();
    data.merge_pack(RegionPack { maps: vec![marsh], settlements: vec![fen, bog], factories: vec![] });
    assert_eq!(data.world.maps.len(), 3);
    assert_eq!(data.world.maps[2].id, "marsh");
    assert_eq!(data.settlements.get("fernhollow").unwrap().name, "Fernhollow Rebuilt");
    assert!(data.settlements.get("bogside").is_some());
    assert_eq!(data.settlements.keys().len(), 2);
    assert_eq!(data.world.start_map, "fernhollow");
}

#[test]
fn factory_floors_become_factory_maps() {
    let mut data = content();
    let mut floor = town_map();
    floor.id = "cradle_floor".to_owned();
    floor.settlement = None;
    data.factories.remove("the_cradle");
    data.factories.insert(
        "the_cradle".to_owned(),
        FactoryDef {
            id: "the_cradle".to_owned(),
            name: "The Cradle".to_owned(),
            region: "verdant_hollow".to_owned(),
            description: String::new(),
            floors: vec![floor],
            heart_guard: vec![],
            rider_upgrade: "SteadyHands".to_owned(),
            grows: vec![],
            grow_cost: 200,
        },
    );
    data.add_factory_floors();
    assert_eq!(data.world.maps.len(), 3);
    assert_eq!(data.world.maps[0].id, "fernhollow");
    assert_eq!(data.world.maps[2].id, "cradle_floor");
    assert_eq!(data.world.maps[2].kind, MapKind::Factory);
    assert_eq!(data.world.maps[2].factory_id.as_deref(), Some("the_cradle"));
    assert_eq!(data.world.maps[2].rows, town_map().rows);
}

#[test]
fn name_sets_list_each_name_once() {
    let mut flags = StrSet::new();
    flags.insert("met_orla".to_owned());
    flags.insert("saw_cradle".to_owned());
    flags.insert("met_orla".to_owned());
    let mut names = flags.names();
    names.sort();
    assert_eq!(names, vec!["met_orla".to_owned(), "saw_cradle".to_owned()]);
    flags.remove("met_orla");
    assert!(!flags.contains("met_orla"));
    assert_eq!(flags.names(), vec!["saw_cradle".to_owned()]);
}

fn won_battle(session: &GameSession, context: BattleContext, captured: Vec<&str>) -> BattleRecord {
    BattleRecord {
        context,
        outcome: Some(BattleOutcome::Victory(BattleRewards {
            captured_species: captured.into_iter().map(|c| c.to_owned()).collect(),
            salvage: vec![],
            scrip: 0,
        })),
        bag: session.profile.inventory.consumables.clone(),
        units: vec![],
    }
}

#[test]
fn finishing_a_wild_win_advances_the_bounty() {
    let data = content();
    let mut session = GameSession::new_game(&data);
    start(&mut session, &data, "morning_thinning");
    advance_subdue(&mut session, &data, 2);
    let battle = won_battle(&session, BattleContext::WildSubdue, vec!["bumblit"]);
    let finish = finish_battle(&mut session, &data, &battle, None, None);
    assert!(session.quests.is_ready("morning_thinning"));
    assert!(matches!(finish.next, AfterBattle::Resume));
    let notes: Vec<(NoteTone, String)> = finish.notes.into_iter().map(|n| (n.tone, n.text)).collect();
    assert_eq!(
        notes,
        vec![
            (NoteTone::Info, "Bumblit subdued and befriended".to_owned()),
            (NoteTone::Success, "Objective met: Morning Thinning — return to Quartermaster".to_owned()),
        ]
    );
}

#[test]
fn finishing_a_duel_settles_it() {
    let data = content();
    let mut session = GameSession::new_game(&data);
    let scrip_before = session.profile.inventory.scrip;
    let battle = won_battle(&session, BattleContext::Duel, vec![]);
    let pending = PendingDuel { settlement_id: "fernhollow".to_owned(), duelist_id: "bruk".to_owned(), my_stake: None };
    let finish = finish_battle(&mut session, &data, &battle, Some(pending), None);
    assert_eq!(session.profile.inventory.scrip, scrip_before + 50);
    assert_eq!(current_rank(&session, "fernhollow"), 1);
    let texts: Vec<String> = finish.notes.into_iter().map(|n| n.text).collect();
    assert_eq!(
        texts,
        vec!["Bruk yields — 50 scrip".to_owned(), "Won the stake: Ember Spitter".to_owned(), "Ring rank is now 1".to_owned()]
    );
}

#[test]
fn finishing_a_heart_fight_opens_the_verdict() {
    let data = content();
    let mut session = GameSession::new_game(&data);
    let battle = won_battle(&session, BattleContext::FactoryDismantle, vec![]);
    let finish = finish_battle(&mut session, &data, &battle, None, Some(("the_cradle".to_owned(), BossKind::Heart)));
    assert!(matches!(finish.next, AfterBattle::Verdict(ref id) if id == "the_cradle"));
    assert_eq!(finish.upgrade, Some("SteadyHands".to_owned()));
    assert!(session.world_state.factory("the_cradle").heart_defeated);
    assert_eq!(session.journal.last().unwrap().text, "Cracked the heart of The Cradle and freed what it held.");

    // A lost boss fight settles nothing.
    let mut session = GameSession::new_game(&data);
    let lost = BattleRecord {
        context: BattleContext::FactoryDismantle,
        outcome: Some(BattleOutcome::Fled),
        bag: session.profile.inventory.consumables.clone(),
        units: vec![],
    };
    let finish = finish_battle(&mut session, &data, &lost, None, Some(("the_cradle".to_owned(), BossKind::Heart)));
    assert!(matches!(finish.next, AfterBattle::Resume));
    assert!(!session.world_state.factory("the_cradle").heart_defeated);
    assert_eq!(session.battles_fought, 1);
}

#[test]
fn settlement_doors_open_their_facility() {
    let data = content();
    let mut session = GameSession::new_game(&data);
    assert!(matches!(enter_building(&data, &session, DoorTarget::Bench), Some(Facility::Bench { selected: Some(1) })));
    match enter_building(&data, &session, DoorTarget::Ring) {
        Some(Facility::Town { settlement_id, view }) => {
            assert_eq!(settlement_id, "fernhollow");
            assert_eq!(view, TownView::Ring);
        }
        _ => panic!("the ring door opens the town screen"),
    }
    assert!(matches!(enter_building(&data, &session, DoorTarget::Hub), Some(Facility::Town { view: TownView::Hub, .. })));
    session.location.map_id = "rot_causeway".to_owned();
    assert!(enter_building(&data, &session, DoorTarget::Shop).is_none());
}

#[test]
fn battle_seeds_follow_the_count_and_the_steps() {
    assert_eq!(battle_seed(0, 0), 1000);
    assert_eq!(battle_seed(2, 10), 1000 + 2 * 7919 + 310);
    // The step stride wraps.
    assert_eq!(battle_seed(0, 595_056_260_442_243_601), 1015);
}

#[test]
fn traversal_seeds_mix_steps_and_battles() {
    assert_eq!(traversal_seed(0, 0), 0x9E37_79B9_7F4A_7C15);
    assert_eq!(traversal_seed(0, 5), 0x9E37_79B9_7F4A_7C15 ^ 5);
    assert_eq!(traversal_seed(2, 0), 0x9E37_79B9_7F4A_7C15 ^ 0x2545_F491_4F6C_DD1Du64.wrapping_mul(2));
}

#[test]
fn relapse_rumours_name_the_factory() {
    let data = content();
    let word = relapse_word(&data, "the_cradle");
    assert_eq!(word.name, "Word on the road");
    assert_eq!(word.lines.len(), 3);
    assert_eq!(
        word.lines[0],
        "Travellers say the land around The Cradle is wrong again. Grafted shapes drilling in the fields you brought back to life."
    );
    assert!(word.on_close.is_none());
    let unknown = relapse_word(&data, "old_pit");
    assert!(unknown.lines[0].starts_with("Travellers say the land around old_pit is wrong"));
}

#[test]
fn every_fielded_creature_bonds_win_or_lose() {
    let data = content();
    let mut session = GameSession::new_game(&data);
    let battle = BattleRecord {
        context: BattleContext::WildSubdue,
        outcome: Some(BattleOutcome::Fled),
        bag: session.profile.inventory.consumables.clone(),
        units: vec![
            FieldUnit { side: Side::Player, creature_id: Some(1), mounts: vec![] },
            FieldUnit { side: Side::Player, creature_id: Some(99), mounts: vec![] },
            FieldUnit { side: Side::Enemy, creature_id: Some(1), mounts: vec![] },
            FieldUnit { side: Side::Player, creature_id: None, mounts: vec![] },
        ],
    };
    let finish = finish_battle(&mut session, &data, &battle, None, None);
    assert_eq!(finish.bonded, vec![1]);

    let mut session = GameSession::new_game(&data);
    let unfinished = BattleRecord { outcome: None, ..battle };
    assert!(apply(&mut session, &data, &unfinished).bonded.is_empty());
}

#[test]
fn watch_cost_must_be_positive() {
    assert!(validate_watch_cost(40).is_ok());
    assert_eq!(
        validate_watch_cost(0),
        Err("content validation: balance.world.watch_cost must be > 0, got 0".to_owned())
    );
    assert_eq!(
        validate_watch_cost(-5),
        Err("content validation: balance.world.watch_cost must be > 0, got -5".to_owned())
    );
}

#[test]
fn stored_creatures_of_unknown_species_do_not_block_the_party() {
    let data = content();
    let mut roster = Roster::new();
    roster.creatures.push(creature(7, "ghostling"));
    assert_eq!(roster.acquire(&data, creature(1, "bumblit")), AcquireResult::JoinedParty);
    assert_eq!(roster.slots_used(&data), 1);
    assert!(roster.remove_from_party(1));
    assert!(roster.add_to_party(&data, 1));
    assert_eq!(roster.slots_free(&data), 5);
}

#[test]
fn ids_are_handed_out_in_turn() {
    let mut profile = Profile::new("Rill", 0);
    let a = profile.allocate_id();
    let b = profile.allocate_id();
    assert_eq!(a, 1);
    assert_eq!(b, a + 1);
}

#[test]
fn an_over_budget_party_still_resolves_a_win() {
    let mut data = content();
    let mut session = GameSession::new_game(&data);
    // The content now allows less than the saved party takes.
    data.balance.party_slot_budget = 1;
    data.balance.party_slot_cost.small = 1;
    data.balance.party_slot_cost.medium = 1;
    assert_eq!(session.profile.roster.party, vec![1]);
    data.balance.party_slot_cost.medium = 2;
    let battle = won_battle(&session, BattleContext::WildSubdue, vec!["bumblit"]);
    let summary = apply(&mut session, &data, &battle);
    assert_eq!(summary.lines, vec!["Bumblit subdued and befriended".to_owned()]);
    assert_eq!(session.profile.roster.creatures.len(), 2);
    assert_eq!(session.profile.roster.party, vec![1]);
}
