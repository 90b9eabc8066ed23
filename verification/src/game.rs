//! The decisions of the top-level game loop that do not draw: assembling the
//! units for a fight, opening a duel, what a settlement door or a factory
//! heart leads to, and what a finished battle does to the session. The loop
//! itself performs what these return.

pub mod overworld;

use crate::collections::{first_index, first_match, lemma_first_index_facts};
use crate::combat::unit::{fit_view, UnitSpec};
use crate::combat::resolve::{apply, bonded_ids, captures_can_join, resolution, BattleRecord};
use crate::combat::{BattleContext, BattleOutcome, Side, Stance};
use crate::data::settlement::{duelist_has_id, DuelGraftFit, DuelUnitDef, DuelistDef};
use crate::data::world::{map_has_id, DoorTarget};
use crate::data::GameData;
use crate::model::creature::{CreatureInstance, MountAssignment};
use crate::model::duel::{apply_duel_result, can_challenge, duel_settlement, rank_at, PendingDuel};
use crate::model::quest::{advance_subdue, subdue_progress, texts};
use crate::model::inventory::{item_has_id, GraftItem};
use crate::model::party::creature_has_id;
use crate::model::worldstate::Verdict;
use crate::state::GameSession;
use crate::model::journal::record;
use crate::text::{concat2, concat3, push_str};
use vstd::prelude::*;

verus! {

/// The grafts a creature takes into battle: each assignment whose part is
/// among `items` and intact, as (limb, slot, part def, item).
pub open spec fn battle_grafts(items: Seq<GraftItem>, loadout: Seq<MountAssignment>) -> Seq<(Seq<char>, usize, Seq<char>, Option<u64>)>
    decreases loadout.len(),
{
    if loadout.len() == 0 {
        Seq::empty()
    } else {
        let rest = battle_grafts(items, loadout.drop_last());
        let m = loadout.last();
        match first_match(items, item_has_id(m.item_id)) {
            Some(item) => if item.usable() {
                rest.push((m.limb_id@, m.slot, item.def_id@, Some(m.item_id)))
            } else {
                rest
            },
            None => rest,
        }
    }
}

/// The grafts of an authored unit, with no backing items.
pub open spec fn authored_grafts(gs: Seq<DuelGraftFit>) -> Seq<(Seq<char>, usize, Seq<char>, Option<u64>)> {
    gs.map_values(|g: DuelGraftFit| (g.limb@, g.slot, g.graft@, None::<u64>))
}

fn battle_loadout(c: &CreatureInstance, session: &GameSession) -> (r: Vec<(String, usize, String, Option<u64>)>)
    ensures
        r@.map_values(|g: (String, usize, String, Option<u64>)| fit_view(g)) == battle_grafts(
            session.profile.inventory.items@,
            c.loadout@,
        ),
{
    let items = &session.profile.inventory;
    let mut grafts: Vec<(String, usize, String, Option<u64>)> = Vec::new();
    let mut j: usize = 0;
    while j < c.loadout.len()
        invariant
            j <= c.loadout@.len(),
            grafts@.map_values(|g: (String, usize, String, Option<u64>)| fit_view(g)) == battle_grafts(
                items.items@,
                c.loadout@.take(j as int),
            ),
        decreases c.loadout@.len() - j,
    {
        let m = &c.loadout[j];
        assert(c.loadout@.take(j + 1).drop_last() =~= c.loadout@.take(j as int));
        let ghost before = grafts@;
        if let Some(item) = items.item(m.item_id) {
            if item.is_usable() {
                grafts.push((m.limb_id.clone(), m.slot, item.def_id.clone(), Some(m.item_id)));
                assert(grafts@.map_values(|g: (String, usize, String, Option<u64>)| fit_view(g)) =~= before.map_values(
                    |g: (String, usize, String, Option<u64>)| fit_view(g),
                ).push(fit_view(grafts@.last())));
            }
        }
        j = j + 1;
    }
    assert(c.loadout@.take(c.loadout@.len() as int) =~= c.loadout@);
    grafts
}

/// Assembles battle specs for the current traveling party, in party order.
pub fn party_unit_specs(session: &GameSession, data: &GameData) -> (r: Vec<UnitSpec>)
    requires
        session.profile.roster.party_known(data),
    ensures
        r@.len() == session.profile.roster.members_spec().len(),
        forall|k: int| 0 <= k < r@.len() ==> {
            let c = session.profile.roster.members_spec()[k];
            let u = #[trigger] r@[k];
            &&& u.species_id == c.species_id
            &&& u.name@ == match c.nickname {
                Some(n) => n@,
                None => c.species_spec(data).name@,
            }
            &&& u.side == Side::Player
            &&& u.creature_id == Some(c.id)
            &&& u.bond_bits == c.bond_bits
            &&& u.stance == Stance::Aggressive
            &&& u.grafts@.map_values(|g: (String, usize, String, Option<u64>)| fit_view(g)) == battle_grafts(
                session.profile.inventory.items@,
                c.loadout@,
            )
        },
{
    let members = session.profile.roster.party_members();
    proof {
        crate::model::party::lemma_members_known(data, session.profile.roster.creatures@, session.profile.roster.party@);
    }
    let mut out: Vec<UnitSpec> = Vec::new();
    let mut i: usize = 0;
    while i < members.len()
        invariant
            i <= members@.len(),
            members@.len() == session.profile.roster.members_spec().len(),
            forall|k: int| 0 <= k < members@.len() ==> *(#[trigger] members@[k]) == session.profile.roster.members_spec()[k],
            forall|k: int| 0 <= k < session.profile.roster.members_spec().len() ==> data.species@.contains_key(
                #[trigger] session.profile.roster.members_spec()[k].species_id@,
            ),
            out@.len() == i,
            forall|k: int| 0 <= k < i ==> {
                let c = session.profile.roster.members_spec()[k];
                let u = #[trigger] out@[k];
                &&& u.species_id == c.species_id
                &&& u.name@ == match c.nickname {
                    Some(n) => n@,
                    None => c.species_spec(data).name@,
                }
                &&& u.side == Side::Player
                &&& u.creature_id == Some(c.id)
                &&& u.bond_bits == c.bond_bits
                &&& u.stance == Stance::Aggressive
                &&& u.grafts@.map_values(|g: (String, usize, String, Option<u64>)| fit_view(g)) == battle_grafts(
                    session.profile.inventory.items@,
                    c.loadout@,
                )
            },
        decreases members@.len() - i,
    {
        let c = members[i];
        proof {
            crate::model::party::lemma_members_owned(
                session.profile.roster.creatures@,
                session.profile.roster.party@,
                i as int,
            );
        }
        let grafts = battle_loadout(c, session);
        let name = c.display_name(data).to_owned();
        out.push(UnitSpec {
            species_id: c.species_id.clone(),
            name,
            side: Side::Player,
            creature_id: Some(c.id),
            bond_bits: c.bond_bits,
            stance: Stance::Aggressive,
            grafts,
        });
        i = i + 1;
    }
    out
}

fn authored_loadout(gs: &Vec<DuelGraftFit>) -> (r: Vec<(String, usize, String, Option<u64>)>)
    ensures
        r@.map_values(|g: (String, usize, String, Option<u64>)| fit_view(g)) == authored_grafts(gs@),
{
    let mut out: Vec<(String, usize, String, Option<u64>)> = Vec::new();
    let mut i: usize = 0;
    while i < gs.len()
        invariant
            i <= gs@.len(),
            out@.len() == i,
            out@.map_values(|g: (String, usize, String, Option<u64>)| fit_view(g)) == authored_grafts(gs@.take(i as int)),
        decreases gs@.len() - i,
    {
        let g = &gs[i];
        let ghost before = out@;
        out.push((g.limb.clone(), g.slot, g.graft.clone(), None));
        assert forall|k: int| 0 <= k < i + 1 implies #[trigger] fit_view(out@[k]) == authored_grafts(gs@.take(i + 1))[k] by {
            if k < i {
                assert(out@[k] == before[k]);
                assert(gs@.take(i as int)[k] == gs@.take(i + 1)[k]);
                assert(fit_view(before[k]) == authored_grafts(gs@.take(i as int))[k]);
            } else {
                assert(gs@.take(i + 1)[k] == gs@[i as int]);
                assert(fit_view(out@[k]) == (g.limb@, g.slot, g.graft@, None::<u64>));
            }
        }
        assert(out@.map_values(|g: (String, usize, String, Option<u64>)| fit_view(g)) =~= authored_grafts(gs@.take(i + 1)));
        i = i + 1;
    }
    assert(gs@.take(gs@.len() as int) =~= gs@);
    out
}

/// An enemy spec for authored unit `u`, named `name`.
pub open spec fn authored_unit(u: DuelUnitDef, name: Seq<char>, spec: UnitSpec) -> bool {
    &&& spec.species_id@ == u.species@
    &&& spec.name@ == name
    &&& spec.side == Side::Enemy
    &&& spec.creature_id is None
    &&& spec.bond_bits == 0
    &&& spec.stance == Stance::Aggressive
    &&& spec.grafts@.map_values(|g: (String, usize, String, Option<u64>)| fit_view(g)) == authored_grafts(u.grafts@)
}

/// The name a heart guard fights under: its own, or the factory's; a
/// relapsed keeper's is prefixed "Relapsed ".
pub open spec fn guard_name(u: DuelUnitDef, factory_name: Seq<char>, relapse: bool) -> Seq<char> {
    if relapse {
        "Relapsed "@ + match u.name {
            Some(n) => n@,
            None => Seq::empty(),
        }
    } else {
        match u.name {
            Some(n) => n@,
            None => factory_name,
        }
    }
}

/// The heart guard of factory `factory_id` as enemy specs (none when the
/// factory is unknown).
pub fn guard_specs(data: &GameData, factory_id: &str, relapse: bool) -> (r: Vec<UnitSpec>)
    ensures
        !data.factories@.contains_key(factory_id@) ==> r@.len() == 0,
        data.factories@.contains_key(factory_id@) ==> {
            let f = data.factories@[factory_id@];
            &&& r@.len() == f.heart_guard@.len()
            &&& forall|k: int| 0 <= k < r@.len() ==> authored_unit(
                f.heart_guard@[k],
                guard_name(f.heart_guard@[k], f.name@, relapse),
                #[trigger] r@[k],
            )
        },
{
    let factory = match data.factories.get(factory_id) {
        Some(f) => f,
        None => {
            return Vec::new();
        },
    };
    let mut out: Vec<UnitSpec> = Vec::new();
    let mut i: usize = 0;
    while i < factory.heart_guard.len()
        invariant
            i <= factory.heart_guard@.len(),
            *factory == data.factories@[factory_id@],
            out@.len() == i,
            forall|k: int| 0 <= k < i ==> authored_unit(
                factory.heart_guard@[k],
                guard_name(factory.heart_guard@[k], factory.name@, relapse),
                #[trigger] out@[k],
            ),
        decreases factory.heart_guard@.len() - i,
    {
        let u = &factory.heart_guard[i];
        let name = if relapse {
            let mut n = "Relapsed ".to_owned();
            match &u.name {
                Some(x) => push_str(&mut n, x.as_str()),
                None => {},
            }
            proof {
                if u.name is None {
                    assert(n@ =~= "Relapsed "@ + Seq::<char>::empty());
                }
            }
            n
        } else {
            match &u.name {
                Some(x) => x.clone(),
                None => factory.name.clone(),
            }
        };
        out.push(UnitSpec {
            species_id: u.species.clone(),
            name,
            side: Side::Enemy,
            creature_id: None,
            bond_bits: 0,
            stance: Stance::Aggressive,
            grafts: authored_loadout(&u.grafts),
        });
        i = i + 1;
    }
    out
}

/// How a challenge at the ring resolves before any fight.
pub enum DuelStart {
    /// No such settlement or duelist.
    Unknown,
    /// The rider's ring rank is below the duelist's requirement.
    NotAllowed,
    /// A staked duelist was challenged without a stake.
    NeedsStake,
    /// The duel is on: what to remember, and who steps into the ring.
    Ready { pending: PendingDuel, enemy: Vec<UnitSpec> },
}

/// The name a duelist's creature fights under: its own, or
/// "{duelist}'s creature".
pub open spec fn duel_unit_name(u: DuelUnitDef, duelist_name: Seq<char>) -> Seq<char> {
    match u.name {
        Some(n) => n@,
        None => duelist_name + "'s creature"@,
    }
}

/// The duelist `duelist_id` of settlement `settlement_id`, when both exist.
pub open spec fn duelist_named(data: &GameData, settlement_id: Seq<char>, duelist_id: Seq<char>) -> Option<DuelistDef> {
    if data.settlements@.contains_key(settlement_id) {
        first_match(data.settlements@[settlement_id].duelists@, duelist_has_id(duelist_id))
    } else {
        None
    }
}

/// Opens a duel: checks the challenge and assembles the duelist's party.
pub fn start_duel(
    session: &GameSession,
    data: &GameData,
    settlement_id: &str,
    duelist_id: &str,
    stake: Option<u64>,
) -> (r: DuelStart)
    ensures
        match duelist_named(data, settlement_id@, duelist_id@) {
            None => r is Unknown,
            Some(d) => if rank_at(session, settlement_id@) < d.rank_req {
                r is NotAllowed
            } else if !d.practice && stake is None {
                r is NeedsStake
            } else {
                r matches DuelStart::Ready { pending, enemy } && {
                    &&& pending.settlement_id@ == settlement_id@
                    &&& pending.duelist_id@ == duelist_id@
                    &&& pending.my_stake == stake
                    &&& enemy@.len() == d.party@.len()
                    &&& forall|k: int| 0 <= k < enemy@.len() ==> authored_unit(
                        d.party@[k],
                        duel_unit_name(d.party@[k], d.name@),
                        #[trigger] enemy@[k],
                    )
                }
            },
        },
{
    let duelist = match data.settlements.get(settlement_id) {
        Some(s) => match s.duelist(duelist_id) {
            Some(d) => d,
            None => {
                return DuelStart::Unknown;
            },
        },
        None => {
            return DuelStart::Unknown;
        },
    };
    if !can_challenge(session, settlement_id, duelist) {
        return DuelStart::NotAllowed;
    }
    if !duelist.practice && stake.is_none() {
        return DuelStart::NeedsStake;
    }
    let mut enemy: Vec<UnitSpec> = Vec::new();
    let mut i: usize = 0;
    while i < duelist.party.len()
        invariant
            i <= duelist.party@.len(),
            enemy@.len() == i,
            forall|k: int| 0 <= k < i ==> authored_unit(
                duelist.party@[k],
                duel_unit_name(duelist.party@[k], duelist.name@),
                #[trigger] enemy@[k],
            ),
        decreases duelist.party@.len() - i,
    {
        let u = &duelist.party[i];
        let name = match &u.name {
            Some(x) => x.clone(),
            None => concat2(duelist.name.as_str(), "'s creature"),
        };
        enemy.push(UnitSpec {
            species_id: u.species.clone(),
            name,
            side: Side::Enemy,
            creature_id: None,
            bond_bits: 0,
            stance: Stance::Aggressive,
            grafts: authored_loadout(&u.grafts),
        });
        i = i + 1;
    }
    DuelStart::Ready {
        pending: PendingDuel {
            settlement_id: settlement_id.to_owned(),
            duelist_id: duelist_id.to_owned(),
            my_stake: stake,
        },
        enemy,
    }
}

/// What reaching a factory heart leads to.
pub enum HeartAction {
    /// The heart defends itself: the authored guardian fight.
    FightHeart(Vec<UnitSpec>),
    /// The region relapsed: confront its new keeper.
    FightKeeper(Vec<UnitSpec>),
    /// A bound factory: open the growing screen.
    OpenGrow,
    /// A silenced heart awaiting judgment: open the verdict screen.
    OpenVerdict,
    /// Judged and at peace: "The vats are still. It is done."
    Still,
    /// A fight is owed but the factory has no guard to field.
    Nothing,
}

/// Decides what the heart of factory `factory_id` does when the rider
/// reaches it, from the world ledger.
pub fn heart_interact(session: &GameSession, data: &GameData, factory_id: &str) -> (r: HeartAction)
    ensures
        ({
            let state = session.world_state.factory_spec(factory_id@);
            let guards = if data.factories@.contains_key(factory_id@) {
                data.factories@[factory_id@].heart_guard@.len()
            } else {
                0
            };
            if !state.heart_defeated {
                if guards == 0 {
                    r is Nothing
                } else {
                    r matches HeartAction::FightHeart(enemy) && enemy@.len() == guards && forall|k: int|
                        0 <= k < guards ==> authored_unit(
                            data.factories@[factory_id@].heart_guard@[k],
                            guard_name(data.factories@[factory_id@].heart_guard@[k], data.factories@[factory_id@].name@, false),
                            #[trigger] enemy@[k],
                        )
                }
            } else if state.relapsed {
                if guards == 0 {
                    r is Nothing
                } else {
                    r matches HeartAction::FightKeeper(enemy) && enemy@.len() == guards && forall|k: int|
                        0 <= k < guards ==> authored_unit(
                            data.factories@[factory_id@].heart_guard@[k],
                            guard_name(data.factories@[factory_id@].heart_guard@[k], data.factories@[factory_id@].name@, true),
                            #[trigger] enemy@[k],
                        )
                }
            } else if state.verdict == Some(Verdict::Bind) {
                r is OpenGrow
            } else if state.verdict is None {
                r is OpenVerdict
            } else {
                r is Still
            }
        }),
{
    let state = session.world_state.factory(factory_id);
    if !state.heart_defeated {
        let enemy = guard_specs(data, factory_id, false);
        if enemy.len() == 0 {
            return HeartAction::Nothing;
        }
        HeartAction::FightHeart(enemy)
    } else if state.relapsed {
        let enemy = guard_specs(data, factory_id, true);
        if enemy.len() == 0 {
            return HeartAction::Nothing;
        }
        HeartAction::FightKeeper(enemy)
    } else if state.verdict == Some(Verdict::Bind) {
        HeartAction::OpenGrow
    } else if state.verdict.is_none() {
        HeartAction::OpenVerdict
    } else {
        HeartAction::Still
    }
}

/// The fight a factory heart was owed.
#[derive(Debug, Clone, Copy, PartialEq, Eq, Structural)]
pub enum BossKind {
    /// First assault on a live factory heart.
    Heart,
    /// Confronting a relapsed region's new keeper.
    Relapse,
}

/// The chronicle line for cracking the heart of the factory named `name`.
pub open spec fn heart_entry(name: Seq<char>) -> Seq<char> {
    "Cracked the heart of "@ + name + " and freed what it held."@
}

/// The chronicle line for putting down a relapsed region's keeper.
pub open spec fn keeper_entry() -> Seq<char> {
    "Put down the keeper of a region I brought back \u{2014} the ground I made possible."@
}

/// What the rider is told after putting down a relapsed region's keeper.
pub open spec fn keeper_notice() -> Seq<char> {
    "The new keeper yields. The region breathes again \u{2014} watch it closer this time."@
}

/// What winning a boss fight at factory `factory_id` does to the session:
/// the ledger and the chronicle record it, a fallen heart grants the rider
/// its factory's upgrade (`upgrade` when that is new to the rider), and
/// `notice` is what the rider is told, if anything.
pub open spec fn boss_settlement(
    before: GameSession,
    after: GameSession,
    data: &GameData,
    factory_id: Seq<char>,
    kind: BossKind,
    notice: Option<Seq<char>>,
    upgrade: Option<Seq<char>>,
) -> bool {
    &&& {
        let state0 = before.world_state.factory_spec(factory_id);
        match kind {
            BossKind::Heart => {
                let name = if data.factories@.contains_key(factory_id) {
                    data.factories@[factory_id].name@
                } else {
                    factory_id
                };
                &&& after.world_state.factories@ == before.world_state.factories@.insert(
                    factory_id,
                    crate::model::worldstate::FactoryState { heart_defeated: true, ..state0 },
                )
                &&& after.journal@.len() == before.journal@.len() + 1
                &&& after.journal@.drop_last() == before.journal@
                &&& after.journal@.last().step == before.steps
                &&& after.journal@.last().text@ == heart_entry(name)
                &&& notice is None
                &&& if data.factories@.contains_key(factory_id) {
                    let u = data.factories@[factory_id].rider_upgrade@;
                    &&& after.profile.rider.upgrades@ == before.profile.rider.upgrades@.insert(u)
                    &&& upgrade == if before.profile.rider.upgrades@.contains(u) { None } else { Some(u) }
                } else {
                    after.profile.rider.upgrades@ == before.profile.rider.upgrades@ && upgrade is None
                }
            },
            BossKind::Relapse => {
                &&& after.world_state.factories@ == before.world_state.factories@.insert(
                    factory_id,
                    crate::model::worldstate::FactoryState { relapsed: false, relapse_risk_bits: 0, ..state0 },
                )
                &&& after.journal@.len() == before.journal@.len() + 1
                &&& after.journal@.drop_last() == before.journal@
                &&& after.journal@.last().step == before.steps
                &&& after.journal@.last().text@ == keeper_entry()
                &&& notice == Some(keeper_notice())
                &&& after.profile.rider.upgrades@ == before.profile.rider.upgrades@
                &&& upgrade is None
            },
        }
    }
    &&& after.profile.roster == before.profile.roster
    &&& after.profile.inventory == before.profile.inventory
    &&& after.profile.next_id == before.profile.next_id
    &&& after.profile.rider.name == before.profile.rider.name
    &&& after.profile.rider.duel_ranks@ == before.profile.rider.duel_ranks@
    &&& after.quests == before.quests
    &&& after.story_flags == before.story_flags
    &&& after.steps == before.steps
    &&& after.location == before.location
    &&& after.pace == before.pace
    &&& after.battles_fought == before.battles_fought
}

/// What settling a boss fight tells the rider: a notice, and the upgrade
/// newly earned, if any. The upgrade is announced by its display name and
/// description, which belong to the upgrade catalogue.
pub struct BossSettled {
    pub notice: Option<String>,
    pub upgrade: Option<String>,
}

/// An optional text as plain characters.
pub open spec fn text_view(t: Option<String>) -> Option<Seq<char>> {
    match t {
        Some(s) => Some(s@),
        None => None,
    }
}

/// Settles a won boss fight at factory `factory_id`: a cracked heart is
/// marked defeated; a put-down keeper ends the relapse and its risk. Either
/// way the chronicle records it. Returns the notice for the rider, if any.
pub fn settle_boss(session: &mut GameSession, data: &GameData, factory_id: &str, kind: BossKind) -> (r: BossSettled)
    ensures
        boss_settlement(*old(session), *final(session), data, factory_id@, kind, text_view(r.notice), text_view(r.upgrade)),
{
    let mut state = session.world_state.factory(factory_id);
    match kind {
        BossKind::Heart => {
            state.heart_defeated = true;
            session.world_state.set_factory(factory_id, state);
            let name: &str = match data.factories.get(factory_id) {
                Some(f) => f.name.as_str(),
                None => factory_id,
            };
            record(session, concat3("Cracked the heart of ", name, " and freed what it held."));
            assert(session.journal@.drop_last() =~= old(session).journal@);
            // Silencing a gestarium marks the rider.
            let upgrade = match data.factories.get(factory_id) {
                Some(f) => if session.profile.rider.grant(f.rider_upgrade.as_str()) {
                    Some(f.rider_upgrade.clone())
                } else {
                    None
                },
                None => None,
            };
            BossSettled { notice: None, upgrade }
        },
        BossKind::Relapse => {
            state.relapsed = false;
            state.relapse_risk_bits = 0;
            session.world_state.set_factory(factory_id, state);
            record(
                session,
                "Put down the keeper of a region I brought back \u{2014} the ground I made possible.".to_owned(),
            );
            assert(session.journal@.drop_last() =~= old(session).journal@);
            BossSettled {
                notice: Some("The new keeper yields. The region breathes again \u{2014} watch it closer this time.".to_owned()),
                upgrade: None,
            }
        },
    }
}

/// A view of a settlement's town screen.
#[derive(Debug, Clone, Copy, PartialEq, Eq, Structural)]
pub enum TownView {
    Hub,
    Shop,
    Ring,
}

/// What a settlement door opens.
pub enum Facility {
    /// The grafting bench, on this party creature first.
    Bench { selected: Option<u64> },
    /// The town screen of this settlement, on this view.
    Town { settlement_id: String, view: TownView },
}

/// The settlement of the map the rider stands on, if it has one.
pub open spec fn current_settlement(data: &GameData, session: &GameSession) -> Option<Seq<char>> {
    match first_match(data.world.maps@, map_has_id(session.location.map_id@)) {
        Some(m) => match m.settlement {
            Some(id) => Some(id@),
            None => None,
        },
        None => None,
    }
}

/// Steps through a settlement door into the facility it names: the bench
/// opens on the first party creature, the other doors open the town screen
/// on their view. Outside a settlement a door opens nothing.
pub fn enter_building(data: &GameData, session: &GameSession, target: DoorTarget) -> (r: Option<Facility>)
    ensures
        match current_settlement(data, session) {
            None => r is None,
            Some(id) => match target {
                DoorTarget::Bench => r matches Some(Facility::Bench { selected }) && selected == if session.profile.roster.party@.len() > 0 {
                    Some(session.profile.roster.party@[0])
                } else {
                    None
                },
                _ => r matches Some(Facility::Town { settlement_id, view }) && settlement_id@ == id && view == match target {
                    DoorTarget::Shop => TownView::Shop,
                    DoorTarget::Ring => TownView::Ring,
                    _ => TownView::Hub,
                },
            },
        },
{
    let id = match data.world.map(session.location.map_id.as_str()) {
        Some(m) => match &m.settlement {
            Some(id) => id.clone(),
            None => {
                return None;
            },
        },
        None => {
            return None;
        },
    };
    match target {
        DoorTarget::Bench => {
            let selected = if session.profile.roster.party.len() > 0 {
                Some(session.profile.roster.party[0])
            } else {
                None
            };
            Some(Facility::Bench { selected })
        },
        DoorTarget::Shop => Some(Facility::Town { settlement_id: id, view: TownView::Shop }),
        DoorTarget::Ring => Some(Facility::Town { settlement_id: id, view: TownView::Ring }),
        DoorTarget::Hub => Some(Facility::Town { settlement_id: id, view: TownView::Hub }),
    }
}

/// The seed of a battle's dice: fixed by how many battles were fought and
/// how many steps were taken, so a fight replays the same from a save.
pub fn battle_seed(battles_fought: u32, steps: u64) -> (r: u64)
    requires
        1000 + battles_fought * 7919 + (steps * 31) % 0x1_0000_0000_0000_0000 <= u64::MAX,
    ensures
        r == 1000 + battles_fought * 7919 + (steps * 31) % 0x1_0000_0000_0000_0000,
{
    let stride = steps.wrapping_mul(31);
    1000 + battles_fought as u64 * 7919 + stride
}

/// How a note to the rider is shown.
#[derive(Debug, Clone, Copy, PartialEq, Eq, Structural)]
pub enum NoteTone {
    Info,
    Success,
}

/// A line shown to the rider.
pub struct Note {
    pub tone: NoteTone,
    pub text: String,
}

/// Where play goes once a battle is over.
pub enum AfterBattle {
    /// Back to the screen the battle was entered from.
    Resume,
    /// The verdict screen of this factory, whose heart just fell.
    Verdict(String),
}

/// What finishing a battle reports: the notes, in order, and where play goes.
pub struct BattleFinish {
    pub notes: Vec<Note>,
    pub next: AfterBattle,
    /// The creatures whose bond grows, as `apply` names them.
    pub bonded: Vec<u64>,
    /// The rider upgrade newly earned by a fallen heart, if any.
    pub upgrade: Option<String>,
}

/// The notes as plain values.
pub open spec fn note_view(notes: Seq<Note>) -> Seq<(NoteTone, Seq<char>)> {
    notes.map_values(|n: Note| (n.tone, n.text@))
}

/// Lines of one tone.
pub open spec fn toned(tone: NoteTone, lines: Seq<Seq<char>>) -> Seq<(NoteTone, Seq<char>)> {
    lines.map_values(|l: Seq<char>| (tone, l))
}

/// Whether the battle was won.
pub open spec fn battle_won(battle: &BattleRecord) -> bool {
    battle.outcome matches Some(BattleOutcome::Victory(_))
}

/// How many wild creatures a battle subdued: the cores it captured, when it
/// was a wild fight that was won.
pub open spec fn subdued(battle: &BattleRecord) -> u32 {
    match battle.outcome {
        Some(BattleOutcome::Victory(rw)) => if battle.context == BattleContext::WildSubdue {
            rw.captured_species@.len() as u32
        } else {
            0
        },
        _ => 0,
    }
}

/// The duelist a pending duel was fought against, if the content still
/// names them.
pub open spec fn duel_opponent(data: &GameData, pending: Option<PendingDuel>) -> Option<DuelistDef> {
    match pending {
        Some(p) => duelist_named(data, p.settlement_id@, p.duelist_id@),
        None => None,
    }
}

/// The scrip after winning `battle`.
pub open spec fn scrip_after_win(session: GameSession, battle: &BattleRecord) -> int {
    match battle.outcome {
        Some(BattleOutcome::Victory(rw)) => session.profile.inventory.scrip + if rw.scrip > 0 { rw.scrip } else { 0 },
        _ => session.profile.inventory.scrip as int,
    }
}

/// The next id after winning `battle`.
pub open spec fn next_id_after_win(session: GameSession, battle: &BattleRecord) -> int {
    match battle.outcome {
        Some(BattleOutcome::Victory(rw)) => session.profile.next_id() + rw.captured_species@.len() + rw.salvage@.len(),
        _ => session.profile.next_id() as int,
    }
}

/// The steps of finishing a battle, from session `s0` to `s4`: resolving
/// it (`s1`), advancing subdue bounties (`s2`), settling a pending duel
/// (`s3`), and settling a boss fight that was won (`s4`), with the lines
/// each step reports and `notes` all of them in order.
pub open spec fn finish_steps(
    s0: GameSession,
    s1: GameSession,
    s2: GameSession,
    s3: GameSession,
    s4: GameSession,
    data: &GameData,
    battle: &BattleRecord,
    pending_duel: Option<PendingDuel>,
    pending_boss: Option<(String, BossKind)>,
    l1: Seq<Seq<char>>,
    l2: Seq<Seq<char>>,
    l3: Seq<Seq<char>>,
    l4: Option<Seq<char>>,
    notes: Seq<(NoteTone, Seq<char>)>,
    upgrade: Option<Seq<char>>,
) -> bool {
    &&& resolution(s0, s1, data, battle, l1)
    &&& if subdued(battle) > 0 {
        subdue_progress(s1, s2, data, subdued(battle), l2)
    } else {
        s2 == s1 && l2 == Seq::<Seq<char>>::empty()
    }
    &&& match duel_opponent(data, pending_duel) {
        Some(d) => duel_settlement(s2, s3, data, &pending_duel.unwrap(), &d, battle_won(battle), l3),
        None => s3 == s2 && l3 == Seq::<Seq<char>>::empty(),
    }
    &&& if battle_won(battle) && pending_boss is Some {
        boss_settlement(s3, s4, data, pending_boss.unwrap().0@, pending_boss.unwrap().1, l4, upgrade)
    } else {
        s4 == s3 && l4 is None && upgrade is None
    }
    &&& notes == toned(NoteTone::Info, l1) + toned(NoteTone::Success, l2) + toned(NoteTone::Info, l3) + match l4 {
        Some(t) => seq![(NoteTone::Info, t)],
        None => Seq::empty(),
    }
}

/// Finishes a battle whose outcome is set: resolves it, advances subdue
/// bounties by the wild cores it captured, settles the duel it was fought
/// for, if any, and, when it was won, the boss fight it was. A fallen heart
/// opens that factory's verdict; otherwise play resumes.
pub fn finish_battle(
    session: &mut GameSession,
    data: &GameData,
    battle: &BattleRecord,
    pending_duel: Option<PendingDuel>,
    pending_boss: Option<(String, BossKind)>,
) -> (r: BattleFinish)
    requires
        battle.outcome is Some ==> old(session).battles_fought < u32::MAX,
        battle.outcome matches Some(BattleOutcome::Victory(rw)) ==> {
            &&& old(session).profile.next_id() + rw.captured_species@.len() + rw.salvage@.len() < u64::MAX
            &&& forall|j: int| 0 <= j < rw.captured_species@.len() ==> data.species@.contains_key(
                (#[trigger] rw.captured_species@[j])@,
            )
            &&& rw.scrip > 0 ==> old(session).profile.inventory.scrip + rw.scrip <= i64::MAX
            &&& captures_can_join(data, &old(session).profile.roster, old(session).profile.next_id(), rw.captured_species@)
        },
        subdued(battle) > 0 ==> forall|k: Seq<char>| #[trigger] old(session).quests.active@.contains_key(k)
            && crate::model::quest::counts_subdues(data, k) ==> old(session).quests.active@[k] + subdued(battle) <= u32::MAX,
        battle_won(battle) ==> match duel_opponent(data, pending_duel) {
            Some(d) => {
                &&& i64::MIN <= scrip_after_win(*old(session), battle) + d.reward_scrip <= i64::MAX
                &&& d.stake is Some ==> next_id_after_win(*old(session), battle) < u64::MAX
                &&& d.rank_req < u32::MAX
            },
            None => true,
        },
    ensures
        exists|s1: GameSession, s2: GameSession, s3: GameSession, l1: Seq<Seq<char>>, l2: Seq<Seq<char>>, l3: Seq<Seq<char>>, l4: Option<Seq<char>>|
            #[trigger] finish_steps(
                *old(session), s1, s2, s3, *final(session), data, battle, pending_duel, pending_boss, l1, l2, l3, l4,
                note_view(r.notes@), text_view(r.upgrade),
            ),
        match r.next {
            AfterBattle::Verdict(f) => battle_won(battle) && (pending_boss matches Some((id, BossKind::Heart)) && f@ == id@),
            AfterBattle::Resume => !(battle_won(battle) && pending_boss matches Some((_, BossKind::Heart))),
        },
        r.bonded@ == if battle.outcome is Some {
            bonded_ids(battle.units@, old(session).profile.roster.creatures@)
        } else {
            Seq::<u64>::empty()
        },
{
    let ghost s0 = *session;
    let summary = apply(session, data, battle);
    let ghost s1 = *session;
    let ghost l1 = texts(summary.lines@);
    let mut notes: Vec<Note> = Vec::new();
    let mut i: usize = 0;
    while i < summary.lines.len()
        invariant
            i <= summary.lines@.len(),
            note_view(notes@) == toned(NoteTone::Info, texts(summary.lines@.take(i as int))),
        decreases summary.lines@.len() - i,
    {
        let ghost before = note_view(notes@);
        let text = summary.lines[i].clone();
        notes.push(Note { tone: NoteTone::Info, text });
        assert(note_view(notes@) =~= before.push((NoteTone::Info, summary.lines@[i as int]@)));
        assert(texts(summary.lines@.take(i + 1)) =~= texts(summary.lines@.take(i as int)).push(summary.lines@[i as int]@));
        assert(toned(NoteTone::Info, texts(summary.lines@.take(i + 1))) =~= toned(NoteTone::Info, texts(summary.lines@.take(i as int))).push((NoteTone::Info, summary.lines@[i as int]@)));
        assert(note_view(notes@) =~= toned(NoteTone::Info, texts(summary.lines@.take(i + 1))));
        i = i + 1;
    }
    assert(summary.lines@.take(summary.lines@.len() as int) =~= summary.lines@);
    let won = match &battle.outcome {
        Some(BattleOutcome::Victory(_)) => true,
        _ => false,
    };
    // Subduing wild creatures advances any open bounty.
    let n: u32 = match &battle.outcome {
        Some(BattleOutcome::Victory(rewards)) => if battle.context == BattleContext::WildSubdue {
            #[verifier::truncate]
            (rewards.captured_species.len() as u32)
        } else {
            0
        },
        _ => 0,
    };
    let ghost notes1 = note_view(notes@);
    let mut l2v: Vec<String> = Vec::new();
    if n > 0 {
        l2v = advance_subdue(session, data, n);
    }
    let ghost s2 = *session;
    let ghost l2 = texts(l2v@);
    let mut i: usize = 0;
    while i < l2v.len()
        invariant
            i <= l2v@.len(),
            note_view(notes@) == notes1 + toned(NoteTone::Success, texts(l2v@.take(i as int))),
        decreases l2v@.len() - i,
    {
        let ghost before = note_view(notes@);
        let text = l2v[i].clone();
        notes.push(Note { tone: NoteTone::Success, text });
        assert(note_view(notes@) =~= before.push((NoteTone::Success, l2v@[i as int]@)));
        assert(texts(l2v@.take(i + 1)) =~= texts(l2v@.take(i as int)).push(l2v@[i as int]@));
        assert(toned(NoteTone::Success, texts(l2v@.take(i + 1))) =~= toned(NoteTone::Success, texts(l2v@.take(i as int))).push((NoteTone::Success, l2v@[i as int]@)));
        assert(note_view(notes@) =~= notes1 + toned(NoteTone::Success, texts(l2v@.take(i + 1))));
        i = i + 1;
    }
    assert(l2v@.take(l2v@.len() as int) =~= l2v@);
    let ghost notes2 = note_view(notes@);
    let mut l3v: Vec<String> = Vec::new();
    match &pending_duel {
        Some(pending) => {
            let duelist = match data.settlements.get(pending.settlement_id.as_str()) {
                Some(st) => st.duelist(pending.duelist_id.as_str()),
                None => None,
            };
            match duelist {
                Some(d) => {
                    l3v = apply_duel_result(session, data, pending, d, won);
                },
                None => {},
            }
        },
        None => {},
    }
    let ghost s3 = *session;
    let ghost l3 = texts(l3v@);
    let mut i: usize = 0;
    while i < l3v.len()
        invariant
            i <= l3v@.len(),
            note_view(notes@) == notes2 + toned(NoteTone::Info, texts(l3v@.take(i as int))),
        decreases l3v@.len() - i,
    {
        let ghost before = note_view(notes@);
        let text = l3v[i].clone();
        notes.push(Note { tone: NoteTone::Info, text });
        assert(note_view(notes@) =~= before.push((NoteTone::Info, l3v@[i as int]@)));
        assert(texts(l3v@.take(i + 1)) =~= texts(l3v@.take(i as int)).push(l3v@[i as int]@));
        assert(toned(NoteTone::Info, texts(l3v@.take(i + 1))) =~= toned(NoteTone::Info, texts(l3v@.take(i as int))).push((NoteTone::Info, l3v@[i as int]@)));
        assert(note_view(notes@) =~= notes2 + toned(NoteTone::Info, texts(l3v@.take(i + 1))));
        i = i + 1;
    }
    assert(l3v@.take(l3v@.len() as int) =~= l3v@);
    let ghost notes3 = note_view(notes@);
    let mut next = AfterBattle::Resume;
    let mut notice: Option<String> = None;
    let mut upgrade: Option<String> = None;
    if won {
        match pending_boss {
            Some((factory_id, kind)) => {
                let settled = settle_boss(session, data, factory_id.as_str(), kind);
                notice = settled.notice;
                upgrade = settled.upgrade;
                match kind {
                    BossKind::Heart => {
                        next = AfterBattle::Verdict(factory_id);
                    },
                    BossKind::Relapse => {},
                }
            },
            None => {},
        }
    }
    let ghost l4: Option<Seq<char>> = if notice is Some { Some(notice.unwrap()@) } else { None };
    match notice {
        Some(t) => {
            notes.push(Note { tone: NoteTone::Info, text: t });
        },
        None => {},
    }
    let r = BattleFinish { notes, next, bonded: summary.bonded, upgrade };
    proof {
        if l2v@.len() == 0 {
            assert(l2 =~= Seq::<Seq<char>>::empty());
        }
        if l3v@.len() == 0 {
            assert(l3 =~= Seq::<Seq<char>>::empty());
        }
        assert(note_view(r.notes@) =~= toned(NoteTone::Info, l1) + toned(NoteTone::Success, l2) + toned(NoteTone::Info, l3) + match l4 {
            Some(t) => seq![(NoteTone::Info, t)],
            None => Seq::empty(),
        });
        assert(finish_steps(s0, s1, s2, s3, *session, data, battle, pending_duel, pending_boss, l1, l2, l3, l4, note_view(r.notes@), text_view(r.upgrade)));
    }
    r
}

} // verus!
