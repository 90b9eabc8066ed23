//! Semantic validation for merged game content.
//!
//! Every check answers `Ok(())` or the message of the first problem it finds,
//! in the order the content is read.

pub mod factories;
pub mod world;

use crate::collections::{first_match, names_contain};
use crate::data::balance::BalanceConfig;
use crate::data::quest::QuestDef;
use crate::data::species::{lemma_total_mounts_prefix, total_mounts, LimbArchetype, LimbDef, SpeciesDef};
use crate::data::settlement::{DuelUnitDef, DuelistDef, SettlementDef, ShopEntry};
use crate::data::world::{region_has_id, MapDef};
use crate::data::{GameConfig, GameData};
use crate::text::{blank, concat3, int_text, is_blank, push_i64, push_str, str_eq};
use factories::{unit_grafts_problem, validate_unit_grafts};
use vstd::prelude::*;

verus! {

/// What a check reports: nothing when it passes, its message when it fails.
pub open spec fn outcome(r: Result<(), String>) -> Option<Seq<char>> {
    match r {
        Ok(_) => None,
        Err(e) => Some(e@),
    }
}

/// `a` when it reports a problem, else `b`: checks run in turn and the first
/// failure is the one reported.
pub open spec fn first_of(a: Option<Seq<char>>, b: Option<Seq<char>>) -> Option<Seq<char>> {
    if a is Some {
        a
    } else {
        b
    }
}

/// The first problem among items `0..n`, where `f(i)` is item `i`'s problem.
pub open spec fn scan(n: int, f: spec_fn(int) -> Option<Seq<char>>) -> Option<Seq<char>>
    decreases n,
{
    if n <= 0 {
        None
    } else {
        first_of(scan(n - 1, f), f(n - 1))
    }
}

/// Once some item among the first `k` has a problem, looking further does
/// not change which one is reported.
pub proof fn lemma_scan_stops(f: spec_fn(int) -> Option<Seq<char>>, k: int, n: int)
    requires
        0 <= k <= n,
        scan(k, f) is Some,
    ensures
        scan(n, f) == scan(k, f),
    decreases n - k,
{
    if n > k {
        lemma_scan_stops(f, k, n - 1);
    }
}

/// When the items before `i` pass and item `i` fails, item `i`'s problem is
/// the one reported for any longer prefix.
pub proof fn lemma_scan_found(f: spec_fn(int) -> Option<Seq<char>>, i: int, n: int)
    requires
        0 <= i < n,
        scan(i, f) is None,
        f(i) is Some,
    ensures
        scan(n, f) == f(i),
{
    assert(scan(i + 1, f) == f(i));
    lemma_scan_stops(f, i + 1, n);
}

/// When no item among the first `n` has a problem, none is reported.
pub proof fn lemma_scan_clear(f: spec_fn(int) -> Option<Seq<char>>, n: int)
    requires
        forall|i: int| 0 <= i < n ==> #[trigger] f(i) is None,
    ensures
        scan(n, f) is None,
    decreases n,
{
    if n > 0 {
        lemma_scan_clear(f, n - 1);
    }
}

/// When nothing is reported for the first `n` items, each of them passes.
pub proof fn lemma_scan_none(f: spec_fn(int) -> Option<Seq<char>>, n: int)
    requires
        scan(n, f) is None,
    ensures
        forall|i: int| 0 <= i < n ==> #[trigger] f(i) is None,
    decreases n,
{
    if n > 0 {
        lemma_scan_none(f, n - 1);
    }
}

/// How a check over a registry answers: `None` exactly when no entry has a
/// problem, otherwise the problem of one entry.
pub open spec fn registry_verdict<V>(
    m: Map<Seq<char>, V>,
    f: spec_fn(Seq<char>) -> Option<Seq<char>>,
    r: Option<Seq<char>>,
) -> bool {
    &&& r is None <==> (forall|k: Seq<char>| #[trigger] m.contains_key(k) ==> f(k) is None)
    &&& r matches Some(e) ==> exists|k: Seq<char>| #[trigger] m.contains_key(k) && f(k) == Some(e)
}

/// The first empty field of the game config.
pub open spec fn config_problem(c: &GameConfig) -> Option<Seq<char>> {
    if blank(c.game_name@) {
        Some("content validation: game_config.game_name is empty"@)
    } else if blank(c.display_name@) {
        Some("content validation: game_config.display_name is empty"@)
    } else if blank(c.save_slot@) {
        Some("content validation: game_config.save_slot is empty"@)
    } else if blank(c.version@) {
        Some("content validation: game_config.version is empty"@)
    } else {
        None
    }
}

pub fn validate_config(config: &GameConfig) -> (r: Result<(), String>)
    ensures
        outcome(r) == config_problem(config),
{
    if is_blank(config.game_name.as_str()) {
        return Err("content validation: game_config.game_name is empty".to_owned());
    }
    if is_blank(config.display_name.as_str()) {
        return Err("content validation: game_config.display_name is empty".to_owned());
    }
    if is_blank(config.save_slot.as_str()) {
        return Err("content validation: game_config.save_slot is empty".to_owned());
    }
    if is_blank(config.version.as_str()) {
        return Err("content validation: game_config.version is empty".to_owned());
    }
    Ok(())
}

/// The complaint when `(x, y)` lies outside `map`.
pub open spec fn coordinate_problem(map: &MapDef, x: i32, y: i32, field: Seq<char>) -> Option<Seq<char>> {
    if x < 0 || y < 0 || x >= map.map_width() || y >= map.map_height() {
        Some("content validation: map '"@ + map.id@ + "' "@ + field + " coordinate ("@ + int_text(x as int) + ","@
            + int_text(y as int) + ") is outside "@ + int_text(map.map_width() as int) + "x"@
            + int_text(map.map_height() as int))
    } else {
        None
    }
}

pub fn map_coordinate(map: &MapDef, x: i32, y: i32, field: &str) -> (r: Result<(), String>)
    ensures
        outcome(r) == coordinate_problem(map, x, y, field@),
{
    let w = map.width();
    let h = map.height();
    if x < 0 || y < 0 || x >= w || y >= h {
        let mut m = "content validation: map '".to_owned();
        push_str(&mut m, map.id.as_str());
        push_str(&mut m, "' ");
        push_str(&mut m, field);
        push_str(&mut m, " coordinate (");
        push_i64(&mut m, x as i64);
        push_str(&mut m, ",");
        push_i64(&mut m, y as i64);
        push_str(&mut m, ") is outside ");
        push_i64(&mut m, w as i64);
        push_str(&mut m, "x");
        push_i64(&mut m, h as i64);
        return Err(m);
    }
    Ok(())
}

/// The first problem of the party-slot numbers: a zero budget, else the
/// first size whose cost is zero or exceeds the budget.
pub open spec fn balance_problem(b: &BalanceConfig) -> Option<Seq<char>> {
    let budget = b.party_slot_budget;
    let c = b.party_slot_cost;
    if budget == 0 {
        Some("content validation: balance.party_slot_budget must be > 0"@)
    } else if c.small == 0 || c.small > budget {
        Some("content validation: balance.party_slot_cost.small must fit the party budget"@)
    } else if c.medium == 0 || c.medium > budget {
        Some("content validation: balance.party_slot_cost.medium must fit the party budget"@)
    } else if c.large == 0 || c.large > budget {
        Some("content validation: balance.party_slot_cost.large must fit the party budget"@)
    } else if c.huge == 0 || c.huge > budget {
        Some("content validation: balance.party_slot_cost.huge must fit the party budget"@)
    } else {
        None
    }
}

/// Checks the party-slot budget and the slot cost of every size.
pub fn validate_balance(balance: &BalanceConfig) -> (r: Result<(), String>)
    ensures
        outcome(r) == balance_problem(balance),
{
    let budget = balance.party_slot_budget;
    let c = &balance.party_slot_cost;
    if budget == 0 {
        return Err("content validation: balance.party_slot_budget must be > 0".to_owned());
    }
    if c.small == 0 || c.small > budget {
        return Err("content validation: balance.party_slot_cost.small must fit the party budget".to_owned());
    }
    if c.medium == 0 || c.medium > budget {
        return Err("content validation: balance.party_slot_cost.medium must fit the party budget".to_owned());
    }
    if c.large == 0 || c.large > budget {
        return Err("content validation: balance.party_slot_cost.large must fit the party budget".to_owned());
    }
    if c.huge == 0 || c.huge > budget {
        return Err("content validation: balance.party_slot_cost.huge must fit the party budget".to_owned());
    }
    Ok(())
}

/// The problem of the cost of funding a region's watch: it must be positive.
pub open spec fn watch_cost_problem(watch_cost: i64) -> Option<Seq<char>> {
    if watch_cost <= 0 {
        Some("content validation: balance.world.watch_cost must be > 0, got "@ + int_text(watch_cost as int))
    } else {
        None
    }
}

/// Checks the cost of funding a region's watch.
pub fn validate_watch_cost(watch_cost: i64) -> (r: Result<(), String>)
    ensures
        outcome(r) == watch_cost_problem(watch_cost),
{
    if watch_cost <= 0 {
        let mut m = "content validation: balance.world.watch_cost must be > 0, got ".to_owned();
        push_i64(&mut m, watch_cost);
        return Err(m);
    }
    Ok(())
}

/// The problem of part definition `id`: an id that disagrees with its key,
/// a tier outside 1..=4, no power draw, or no value.
pub open spec fn graft_problem(data: &GameData) -> spec_fn(Seq<char>) -> Option<Seq<char>> {
    |id: Seq<char>|
        {
            let g = data.graftware@[id];
            if g.id@ != id || !(1 <= g.tier <= 4) || g.power_draw == 0 || g.value <= 0 {
                Some("content validation: graftware '"@ + id + "' has invalid identity or balance"@)
            } else {
                None
            }
        }
}

/// Graftware that passes validation is sound: every part is stored under
/// its own id, has a tier in 1..=4, draws power and is worth something. A
/// part with no positive value is refused.
pub proof fn validated_graftware_is_sound(data: &GameData, r: Result<(), String>)
    requires
        registry_verdict(data.graftware@, graft_problem(data), outcome(r)),
    ensures
        r is Ok ==> forall|id: Seq<char>| #[trigger] data.graftware@.contains_key(id) ==> {
            let g = data.graftware@[id];
            &&& g.id@ == id
            &&& 1 <= g.tier <= 4
            &&& g.power_draw > 0
            &&& g.value > 0
        },
{
    if r is Ok {
        assert forall|id: Seq<char>| #[trigger] data.graftware@.contains_key(id) implies {
            let g = data.graftware@[id];
            &&& g.id@ == id
            &&& 1 <= g.tier <= 4
            &&& g.power_draw > 0
            &&& g.value > 0
        } by {
            assert(graft_problem(data)(id) is None);
        }
    }
}

/// Checks every part definition's identity and balance fields.
pub fn validate_graftware(data: &GameData) -> (r: Result<(), String>)
    ensures
        registry_verdict(data.graftware@, graft_problem(data), outcome(r)),
        r is Ok ==> forall|id: Seq<char>| #[trigger] data.graftware@.contains_key(id) ==> {
            let g = data.graftware@[id];
            &&& g.id@ == id
            &&& 1 <= g.tier <= 4
            &&& g.power_draw > 0
            &&& g.value > 0
        },
{
    let keys = data.graftware.keys();
    let ghost f = graft_problem(data);
    let mut i: usize = 0;
    while i < keys.len()
        invariant
            i <= keys@.len(),
            f == graft_problem(data),
            forall|n: Seq<char>| names_contain(keys@, n) <==> data.graftware@.contains_key(n),
            forall|j: int| 0 <= j < i ==> f((#[trigger] keys@[j])@) is None,
        decreases keys@.len() - i,
    {
        let id = keys[i].as_str();
        assert(names_contain(keys@, keys@[i as int]@));
        let g = match data.graftware.get(id) {
            Some(x) => x,
            None => vstd::pervasive::unreached(),
        };
        if !str_eq(g.id.as_str(), id) || g.tier < 1 || g.tier > 4 || g.power_draw == 0 || g.value <= 0 {
            return Err(concat3("content validation: graftware '", id, "' has invalid identity or balance"));
        }
        i = i + 1;
    }
    proof {
        assert forall|k: Seq<char>| #[trigger] data.graftware@.contains_key(k) implies f(k) is None by {
            assert(names_contain(keys@, k));
            let j = choose|j: int| 0 <= j < keys@.len() && (#[trigger] keys@[j])@ == k;
            assert(f(keys@[j]@) is None);
        }
        validated_graftware_is_sound(data, Ok(()));
    }
    Ok(())
}

/// The problem of reward part `i` of quest `id`: an unknown part.
pub open spec fn reward_problem(data: &GameData, id: Seq<char>, grafts: Seq<String>) -> spec_fn(int) -> Option<Seq<char>> {
    |i: int|
        if !data.graftware@.contains_key(grafts[i]@) {
            Some("content validation: quest '"@ + id + "' references unknown graftware '"@ + grafts[i]@ + "'"@)
        } else {
            None
        }
}

/// The first problem of quest `id`: incomplete identity or objective, a
/// negative scrip reward, else its first unknown reward part.
pub open spec fn quest_problem(data: &GameData) -> spec_fn(Seq<char>) -> Option<Seq<char>> {
    |id: Seq<char>|
        {
            let q = data.quests@[id];
            if q.id@ != id || blank(q.giver@) || blank(q.tracker@) || q.objective.count == 0 {
                Some("content validation: quest '"@ + id + "' has incomplete identity or objective"@)
            } else if q.reward_scrip < 0 {
                Some("content validation: quest '"@ + id + "' has negative scrip reward"@)
            } else {
                scan(q.reward_grafts@.len() as int, reward_problem(data, id, q.reward_grafts@))
            }
        }
}

#[verifier::loop_isolation(false)]
fn check_quest(data: &GameData, id: &str, q: &QuestDef) -> (r: Result<(), String>)
    requires
        data.quests@.contains_key(id@),
        *q == data.quests@[id@],
    ensures
        outcome(r) == quest_problem(data)(id@),
{
    if !str_eq(q.id.as_str(), id) || is_blank(q.giver.as_str()) || is_blank(q.tracker.as_str()) || q.objective.count == 0 {
        return Err(concat3("content validation: quest '", id, "' has incomplete identity or objective"));
    }
    if q.reward_scrip < 0 {
        return Err(concat3("content validation: quest '", id, "' has negative scrip reward"));
    }
    let ghost f = reward_problem(data, id@, q.reward_grafts@);
    let mut i: usize = 0;
    while i < q.reward_grafts.len()
        invariant
            i <= q.reward_grafts@.len(),
            scan(i as int, f) is None,
        decreases q.reward_grafts@.len() - i,
    {
        if !data.graftware.contains_key(q.reward_grafts[i].as_str()) {
            let mut m = "content validation: quest '".to_owned();
            push_str(&mut m, id);
            push_str(&mut m, "' references unknown graftware '");
            push_str(&mut m, q.reward_grafts[i].as_str());
            push_str(&mut m, "'");
            proof {
                lemma_scan_found(f, i as int, q.reward_grafts@.len() as int);
            }
            return Err(m);
        }
        i = i + 1;
    }
    Ok(())
}

pub fn validate_quests(data: &GameData) -> (r: Result<(), String>)
    ensures
        registry_verdict(data.quests@, quest_problem(data), outcome(r)),
{
    let keys = data.quests.keys();
    let ghost f = quest_problem(data);
    let mut i: usize = 0;
    while i < keys.len()
        invariant
            i <= keys@.len(),
            f == quest_problem(data),
            forall|n: Seq<char>| names_contain(keys@, n) <==> data.quests@.contains_key(n),
            forall|j: int| 0 <= j < i ==> f((#[trigger] keys@[j])@) is None,
        decreases keys@.len() - i,
    {
        let id = keys[i].as_str();
        assert(names_contain(keys@, keys@[i as int]@));
        let q = match data.quests.get(id) {
            Some(x) => x,
            None => vstd::pervasive::unreached(),
        };
        let r = check_quest(data, id, q);
        if r.is_err() {
            return r;
        }
        i = i + 1;
    }
    proof {
        assert forall|k: Seq<char>| #[trigger] data.quests@.contains_key(k) implies f(k) is None by {
            assert(names_contain(keys@, k));
            let j = choose|j: int| 0 <= j < keys@.len() && (#[trigger] keys@[j])@ == k;
            assert(f(keys@[j]@) is None);
        }
    }
    Ok(())
}

/// The problem of shop entry `i` of settlement `id`: an unknown part or a
/// price that is not positive.
pub open spec fn shop_problem(data: &GameData, id: Seq<char>, shop: Seq<ShopEntry>) -> spec_fn(int) -> Option<Seq<char>> {
    |i: int|
        if !data.graftware@.contains_key(shop[i].graft@) || (shop[i].price matches Some(p) && p <= 0) {
            Some("content validation: settlement '"@ + id + "' has invalid shop entry '"@ + shop[i].graft@ + "'"@)
        } else {
            None
        }
}

/// The problem of party member `k` of duelist `duelist_id`: its outfit's
/// first problem.
pub open spec fn party_problem(data: &GameData, duelist_id: Seq<char>, party: Seq<DuelUnitDef>) -> spec_fn(int) -> Option<Seq<char>> {
    |k: int| unit_grafts_problem(data, "duelist '"@ + duelist_id + "'"@, party[k].species@, party[k].grafts@)
}

/// The first problem of duelist `i` of settlement `id`: an incomplete setup
/// (no party, a negative reward, or a staked duelist with no stake), an
/// invalid stake, else its party's first problem.
pub open spec fn duelist_problem(data: &GameData, id: Seq<char>, duelists: Seq<DuelistDef>) -> spec_fn(int) -> Option<Seq<char>> {
    |i: int|
        {
            let d = duelists[i];
            if d.party@.len() == 0 || d.reward_scrip < 0 || (!d.practice && d.stake is None) {
                Some("content validation: duelist '"@ + d.id@ + "' in '"@ + id + "' has incomplete setup"@)
            } else if d.stake matches Some(st) && (!data.graftware@.contains_key(st@) || d.min_stake_value <= 0) {
                Some("content validation: duelist '"@ + d.id@ + "' in '"@ + id + "' has an invalid stake"@)
            } else {
                scan(d.party@.len() as int, party_problem(data, d.id@, d.party@))
            }
        }
}

/// The first problem of settlement `id`: a disagreeing id or unknown region,
/// else its shop, else its duelists.
pub open spec fn settlement_problem(data: &GameData) -> spec_fn(Seq<char>) -> Option<Seq<char>> {
    |id: Seq<char>|
        {
            let s = data.settlements@[id];
            if s.id@ != id || first_match(data.world.regions@, region_has_id(s.region@)) is None {
                Some("content validation: settlement '"@ + id + "' has invalid identity or region"@)
            } else {
                first_of(
                    scan(s.shop@.len() as int, shop_problem(data, id, s.shop@)),
                    scan(s.duelists@.len() as int, duelist_problem(data, id, s.duelists@)),
                )
            }
        }
}

/// "in 'id'": the settlement part of a duelist message.
fn duelist_message(duelist_id: &str, id: &str, tail: &str) -> (r: String)
    ensures
        r@ == "content validation: duelist '"@ + duelist_id@ + "' in '"@ + id@ + tail@,
{
    let mut m = "content validation: duelist '".to_owned();
    push_str(&mut m, duelist_id);
    push_str(&mut m, "' in '");
    push_str(&mut m, id);
    push_str(&mut m, tail);
    m
}

#[verifier::loop_isolation(false)]
fn check_duelist(data: &GameData, id: &str, duelists: &Vec<DuelistDef>, i: usize) -> (r: Result<(), String>)
    requires
        i < duelists@.len(),
    ensures
        outcome(r) == duelist_problem(data, id@, duelists@)(i as int),
{
    let d = &duelists[i];
    if d.party.len() == 0 || d.reward_scrip < 0 || (!d.practice && d.stake.is_none()) {
        return Err(duelist_message(d.id.as_str(), id, "' has incomplete setup"));
    }
    if let Some(stake) = &d.stake {
        if !data.graftware.contains_key(stake.as_str()) || d.min_stake_value <= 0 {
            return Err(duelist_message(d.id.as_str(), id, "' has an invalid stake"));
        }
    }
    let context = concat3("duelist '", d.id.as_str(), "'");
    let ghost f = party_problem(data, d.id@, d.party@);
    let mut k: usize = 0;
    while k < d.party.len()
        invariant
            k <= d.party@.len(),
            scan(k as int, f) is None,
        decreases d.party@.len() - k,
    {
        let unit = &d.party[k];
        let r = validate_unit_grafts(data, context.as_str(), unit.species.as_str(), unit.grafts.as_slice());
        if r.is_err() {
            proof {
                lemma_scan_found(f, k as int, d.party@.len() as int);
            }
            return r;
        }
        k = k + 1;
    }
    Ok(())
}

#[verifier::loop_isolation(false)]
fn check_settlement(data: &GameData, id: &str, s: &SettlementDef) -> (r: Result<(), String>)
    requires
        data.settlements@.contains_key(id@),
        *s == data.settlements@[id@],
    ensures
        outcome(r) == settlement_problem(data)(id@),
{
    if !str_eq(s.id.as_str(), id) || data.world.region(s.region.as_str()).is_none() {
        return Err(concat3("content validation: settlement '", id, "' has invalid identity or region"));
    }
    let ghost shop_f = shop_problem(data, id@, s.shop@);
    let mut i: usize = 0;
    while i < s.shop.len()
        invariant
            i <= s.shop@.len(),
            scan(i as int, shop_f) is None,
        decreases s.shop@.len() - i,
    {
        let e = &s.shop[i];
        let bad_price = match e.price {
            Some(p) => p <= 0,
            None => false,
        };
        if !data.graftware.contains_key(e.graft.as_str()) || bad_price {
            let mut m = "content validation: settlement '".to_owned();
            push_str(&mut m, id);
            push_str(&mut m, "' has invalid shop entry '");
            push_str(&mut m, e.graft.as_str());
            push_str(&mut m, "'");
            proof {
                lemma_scan_found(shop_f, i as int, s.shop@.len() as int);
            }
            return Err(m);
        }
        i = i + 1;
    }
    let ghost duel_f = duelist_problem(data, id@, s.duelists@);
    let mut i: usize = 0;
    while i < s.duelists.len()
        invariant
            i <= s.duelists@.len(),
            scan(i as int, duel_f) is None,
        decreases s.duelists@.len() - i,
    {
        let r = check_duelist(data, id, &s.duelists, i);
        if r.is_err() {
            proof {
                lemma_scan_found(duel_f, i as int, s.duelists@.len() as int);
            }
            return r;
        }
        i = i + 1;
    }
    Ok(())
}

pub fn validate_settlements(data: &GameData) -> (r: Result<(), String>)
    ensures
        registry_verdict(data.settlements@, settlement_problem(data), outcome(r)),
{
    let keys = data.settlements.keys();
    let ghost f = settlement_problem(data);
    let mut i: usize = 0;
    while i < keys.len()
        invariant
            i <= keys@.len(),
            f == settlement_problem(data),
            forall|n: Seq<char>| names_contain(keys@, n) <==> data.settlements@.contains_key(n),
            forall|j: int| 0 <= j < i ==> f((#[trigger] keys@[j])@) is None,
        decreases keys@.len() - i,
    {
        let id = keys[i].as_str();
        assert(names_contain(keys@, keys@[i as int]@));
        let s = match data.settlements.get(id) {
            Some(x) => x,
            None => vstd::pervasive::unreached(),
        };
        let r = check_settlement(data, id, s);
        if r.is_err() {
            return r;
        }
        i = i + 1;
    }
    proof {
        assert forall|k: Seq<char>| #[trigger] data.settlements@.contains_key(k) implies f(k) is None by {
            assert(names_contain(keys@, k));
            let j = choose|j: int| 0 <= j < keys@.len() && (#[trigger] keys@[j])@ == k;
            assert(f(keys@[j]@) is None);
        }
    }
    Ok(())
}

/// Whether an earlier limb than limb `i` has its id.
pub open spec fn limb_seen(limbs: Seq<LimbDef>, i: int) -> bool {
    exists|j: int| 0 <= j < i && (#[trigger] limbs[j]).id@ == limbs[i].id@
}

/// The problem of limb `i` of species `id`: an empty or repeated id, or
/// more than two mounts.
pub open spec fn limb_problem(id: Seq<char>, limbs: Seq<LimbDef>) -> spec_fn(int) -> Option<Seq<char>> {
    |i: int|
        if blank(limbs[i].id@) || limb_seen(limbs, i) {
            Some("content validation: species '"@ + id + "' has duplicate or empty limb id"@)
        } else if limbs[i].mounts@.len() > 2 {
            Some("content validation: species '"@ + id + "' limb '"@ + limbs[i].id@ + "' has over two mounts"@)
        } else {
            None
        }
}

/// The first problem of species `id` among the chassis rules: an id that
/// disagrees with its key or is empty; power or speed above 100 or a tier
/// outside 1..=4; no limbs; a bad limb; or a flier without natural flight
/// or with more than two mounts.
pub open spec fn species_problem(data: &GameData) -> spec_fn(Seq<char>) -> Option<Seq<char>> {
    |id: Seq<char>|
        {
            let s = data.species@[id];
            if s.id@ != id || blank(s.id@) {
                Some("content validation: species key '"@ + id + "' disagrees with its id"@)
            } else if s.power > 100 || s.speed > 100 || !(1 <= s.tier <= 4) {
                Some("content validation: species '"@ + id + "' has invalid power, speed, or tier"@)
            } else if s.limbs@.len() == 0 {
                Some("content validation: species '"@ + id + "' has no limbs"@)
            } else {
                first_of(
                    scan(s.limbs@.len() as int, limb_problem(id, s.limbs@)),
                    if s.archetype == LimbArchetype::Flier && (!s.natural_flight || total_mounts(s.limbs@) > 2) {
                        Some("content validation: flier species '"@ + id + "' has invalid flight or mount count"@)
                    } else {
                        None
                    },
                )
            }
        }
}

fn more_than_two_mounts(limbs: &Vec<LimbDef>) -> (r: bool)
    ensures
        r == (total_mounts(limbs@) > 2),
{
    let mut n: usize = 0;
    let mut i: usize = 0;
    while i < limbs.len()
        invariant
            i <= limbs@.len(),
            n == total_mounts(limbs@.take(i as int)),
            n <= 2,
        decreases limbs@.len() - i,
    {
        assert(limbs@.take(i + 1).drop_last() =~= limbs@.take(i as int));
        let k = limbs[i].mounts.len();
        if k > 2 - n {
            proof {
                lemma_total_mounts_prefix(limbs@, i + 1);
            }
            return true;
        }
        n = n + k;
        i = i + 1;
    }
    assert(limbs@.take(i as int) =~= limbs@);
    false
}

fn check_limb(id: &str, limbs: &Vec<LimbDef>, i: usize) -> (r: Result<(), String>)
    requires
        i < limbs@.len(),
    ensures
        outcome(r) == limb_problem(id@, limbs@)(i as int),
{
    let dup = {
        let mut seen = false;
        let mut j: usize = 0;
        while j < i
            invariant
                i < limbs@.len(),
                j <= i,
                seen == (exists|k: int| 0 <= k < j && (#[trigger] limbs@[k]).id@ == limbs@[i as int].id@),
            decreases i - j,
        {
            if str_eq(limbs[j].id.as_str(), limbs[i].id.as_str()) {
                seen = true;
            }
            j = j + 1;
        }
        seen
    };
    if is_blank(limbs[i].id.as_str()) || dup {
        return Err(concat3("content validation: species '", id, "' has duplicate or empty limb id"));
    }
    if limbs[i].mounts.len() > 2 {
        let mut m = "content validation: species '".to_owned();
        push_str(&mut m, id);
        push_str(&mut m, "' limb '");
        push_str(&mut m, limbs[i].id.as_str());
        push_str(&mut m, "' has over two mounts");
        return Err(m);
    }
    Ok(())
}

#[verifier::loop_isolation(false)]
fn check_species(data: &GameData, id: &str, s: &SpeciesDef) -> (r: Result<(), String>)
    requires
        data.species@.contains_key(id@),
        *s == data.species@[id@],
    ensures
        outcome(r) == species_problem(data)(id@),
{
    if !str_eq(s.id.as_str(), id) || is_blank(s.id.as_str()) {
        return Err(concat3("content validation: species key '", id, "' disagrees with its id"));
    }
    if s.power > 100 || s.speed > 100 || s.tier < 1 || s.tier > 4 {
        return Err(concat3("content validation: species '", id, "' has invalid power, speed, or tier"));
    }
    if s.limbs.len() == 0 {
        return Err(concat3("content validation: species '", id, "' has no limbs"));
    }
    let ghost f = limb_problem(id@, s.limbs@);
    let mut i: usize = 0;
    while i < s.limbs.len()
        invariant
            i <= s.limbs@.len(),
            scan(i as int, f) is None,
        decreases s.limbs@.len() - i,
    {
        let r = check_limb(id, &s.limbs, i);
        if r.is_err() {
            proof {
                lemma_scan_found(f, i as int, s.limbs@.len() as int);
            }
            return r;
        }
        i = i + 1;
    }
    if s.archetype == LimbArchetype::Flier && (!s.natural_flight || more_than_two_mounts(&s.limbs)) {
        return Err(concat3("content validation: flier species '", id, "' has invalid flight or mount count"));
    }
    Ok(())
}

/// Checks every species against the chassis rules.
pub fn validate_species(data: &GameData) -> (r: Result<(), String>)
    ensures
        registry_verdict(data.species@, species_problem(data), outcome(r)),
{
    let keys = data.species.keys();
    let ghost f = species_problem(data);
    let mut i: usize = 0;
    while i < keys.len()
        invariant
            i <= keys@.len(),
            f == species_problem(data),
            forall|n: Seq<char>| names_contain(keys@, n) <==> data.species@.contains_key(n),
            forall|j: int| 0 <= j < i ==> f((#[trigger] keys@[j])@) is None,
        decreases keys@.len() - i,
    {
        let id = keys[i].as_str();
        assert(names_contain(keys@, keys@[i as int]@));
        let s = match data.species.get(id) {
            Some(x) => x,
            None => vstd::pervasive::unreached(),
        };
        let r = check_species(data, id, s);
        if r.is_err() {
            return r;
        }
        i = i + 1;
    }
    proof {
        assert forall|k: Seq<char>| #[trigger] data.species@.contains_key(k) implies f(k) is None by {
            assert(names_contain(keys@, k));
            let j = choose|j: int| 0 <= j < keys@.len() && (#[trigger] keys@[j])@ == k;
            assert(f(keys@[j]@) is None);
        }
    }
    Ok(())
}

/// A config that passes names the game, its display name, save slot and
/// version, none of them blank.
pub proof fn validated_config_is_named(config: &GameConfig, r: Result<(), String>)
    requires
        outcome(r) == config_problem(config),
    ensures
        r is Ok ==> !blank(config.game_name@) && !blank(config.display_name@) && !blank(config.save_slot@)
            && !blank(config.version@),
{
}

/// A balance that passes has a party budget, and every size costs at least
/// one slot and no more than the whole budget.
pub proof fn validated_balance_fits_the_party(balance: &BalanceConfig, r: Result<(), String>)
    requires
        outcome(r) == balance_problem(balance),
    ensures
        r is Ok ==> {
            let b = balance.party_slot_budget;
            let c = balance.party_slot_cost;
            &&& b > 0
            &&& 0 < c.small <= b
            &&& 0 < c.medium <= b
            &&& 0 < c.large <= b
            &&& 0 < c.huge <= b
        },
{
}

/// Species that pass are stored under their own non-blank ids, have power
/// and speed of at most 100 and a tier in 1..=4, and at least one limb; limb
/// ids are non-blank and distinct, no limb has more than two mounts, and a
/// flier flies naturally with at most two mounts in all.
pub proof fn validated_species_are_sound(data: &GameData, r: Result<(), String>)
    requires
        registry_verdict(data.species@, species_problem(data), outcome(r)),
    ensures
        r is Ok ==> forall|id: Seq<char>| #[trigger] data.species@.contains_key(id) ==> {
            let s = data.species@[id];
            &&& s.id@ == id && !blank(id)
            &&& s.power <= 100 && s.speed <= 100 && 1 <= s.tier <= 4
            &&& s.limbs@.len() > 0
            &&& forall|i: int| 0 <= i < s.limbs@.len() ==> !blank((#[trigger] s.limbs@[i]).id@) && s.limbs@[i].mounts@.len() <= 2
            &&& forall|a: int, b: int| 0 <= a < b < s.limbs@.len() ==> (#[trigger] s.limbs@[a]).id@ != (#[trigger] s.limbs@[b]).id@
            &&& s.archetype == LimbArchetype::Flier ==> s.natural_flight && total_mounts(s.limbs@) <= 2
        },
{
    if r is Ok {
        assert forall|id: Seq<char>| #[trigger] data.species@.contains_key(id) implies {
            let s = data.species@[id];
            &&& s.id@ == id && !blank(id)
            &&& s.power <= 100 && s.speed <= 100 && 1 <= s.tier <= 4
            &&& s.limbs@.len() > 0
            &&& forall|i: int| 0 <= i < s.limbs@.len() ==> !blank((#[trigger] s.limbs@[i]).id@) && s.limbs@[i].mounts@.len() <= 2
            &&& forall|a: int, b: int| 0 <= a < b < s.limbs@.len() ==> (#[trigger] s.limbs@[a]).id@ != (#[trigger] s.limbs@[b]).id@
            &&& s.archetype == LimbArchetype::Flier ==> s.natural_flight && total_mounts(s.limbs@) <= 2
        } by {
            let s = data.species@[id];
            assert(species_problem(data)(id) is None);
            let f = limb_problem(id, s.limbs@);
            lemma_scan_none(f, s.limbs@.len() as int);
            assert forall|i: int| 0 <= i < s.limbs@.len() implies !blank((#[trigger] s.limbs@[i]).id@) && s.limbs@[i].mounts@.len() <= 2 by {
                assert(f(i) is None);
            }
            assert forall|a: int, b: int| 0 <= a < b < s.limbs@.len() implies (#[trigger] s.limbs@[a]).id@ != (#[trigger] s.limbs@[b]).id@ by {
                assert(f(b) is None);
                assert(!limb_seen(s.limbs@, b));
            }
        }
    }
}

/// Quests that pass are stored under their own ids, name a giver and a
/// tracker line, ask for at least one of something, never take scrip away,
/// and reward only parts that exist.
pub proof fn validated_quests_are_sound(data: &GameData, r: Result<(), String>)
    requires
        registry_verdict(data.quests@, quest_problem(data), outcome(r)),
    ensures
        r is Ok ==> forall|id: Seq<char>| #[trigger] data.quests@.contains_key(id) ==> {
            let q = data.quests@[id];
            &&& q.id@ == id && !blank(q.giver@) && !blank(q.tracker@)
            &&& q.objective.count > 0
            &&& q.reward_scrip >= 0
            &&& forall|i: int| 0 <= i < q.reward_grafts@.len() ==> data.graftware@.contains_key((#[trigger] q.reward_grafts@[i])@)
        },
{
    if r is Ok {
        assert forall|id: Seq<char>| #[trigger] data.quests@.contains_key(id) implies {
            let q = data.quests@[id];
            &&& q.id@ == id && !blank(q.giver@) && !blank(q.tracker@)
            &&& q.objective.count > 0
            &&& q.reward_scrip >= 0
            &&& forall|i: int| 0 <= i < q.reward_grafts@.len() ==> data.graftware@.contains_key((#[trigger] q.reward_grafts@[i])@)
        } by {
            let q = data.quests@[id];
            assert(quest_problem(data)(id) is None);
            let f = reward_problem(data, id, q.reward_grafts@);
            lemma_scan_none(f, q.reward_grafts@.len() as int);
            assert forall|i: int| 0 <= i < q.reward_grafts@.len() implies data.graftware@.contains_key((#[trigger] q.reward_grafts@[i])@) by {
                assert(f(i) is None);
            }
        }
    }
}

/// Settlements that pass are stored under their own ids in a defined
/// region; their shops sell only defined parts, at a positive price when one
/// is set; and every duelist fields a party, pays no negative purse, and
/// either only spars or stakes a defined part worth at least something.
pub proof fn validated_settlements_are_sound(data: &GameData, r: Result<(), String>)
    requires
        registry_verdict(data.settlements@, settlement_problem(data), outcome(r)),
    ensures
        r is Ok ==> forall|id: Seq<char>| #[trigger] data.settlements@.contains_key(id) ==> {
            let s = data.settlements@[id];
            &&& s.id@ == id
            &&& exists|g: int| 0 <= g < data.world.regions@.len() && (#[trigger] data.world.regions@[g]).id@ == s.region@
            &&& forall|i: int| 0 <= i < s.shop@.len() ==> data.graftware@.contains_key((#[trigger] s.shop@[i]).graft@)
                && (s.shop@[i].price matches Some(p) ==> p > 0)
            &&& forall|i: int| 0 <= i < s.duelists@.len() ==> {
                let d = #[trigger] s.duelists@[i];
                &&& d.party@.len() > 0
                &&& d.reward_scrip >= 0
                &&& d.practice || d.stake is Some
                &&& d.stake matches Some(st) ==> data.graftware@.contains_key(st@) && d.min_stake_value > 0
            }
        },
{
    if r is Ok {
        assert forall|id: Seq<char>| #[trigger] data.settlements@.contains_key(id) implies {
            let s = data.settlements@[id];
            &&& s.id@ == id
            &&& exists|g: int| 0 <= g < data.world.regions@.len() && (#[trigger] data.world.regions@[g]).id@ == s.region@
            &&& forall|i: int| 0 <= i < s.shop@.len() ==> data.graftware@.contains_key((#[trigger] s.shop@[i]).graft@)
                && (s.shop@[i].price matches Some(p) ==> p > 0)
            &&& forall|i: int| 0 <= i < s.duelists@.len() ==> {
                let d = #[trigger] s.duelists@[i];
                &&& d.party@.len() > 0
                &&& d.reward_scrip >= 0
                &&& d.practice || d.stake is Some
                &&& d.stake matches Some(st) ==> data.graftware@.contains_key(st@) && d.min_stake_value > 0
            }
        } by {
            let s = data.settlements@[id];
            assert(settlement_problem(data)(id) is None);
            crate::collections::lemma_first_index_facts(data.world.regions@, region_has_id(s.region@));
            let g = crate::collections::first_index(data.world.regions@, region_has_id(s.region@))->0;
            assert(data.world.regions@[g].id@ == s.region@);
            let fs = shop_problem(data, id, s.shop@);
            let fd = duelist_problem(data, id, s.duelists@);
            lemma_scan_none(fs, s.shop@.len() as int);
            lemma_scan_none(fd, s.duelists@.len() as int);
            assert forall|i: int| 0 <= i < s.shop@.len() implies data.graftware@.contains_key((#[trigger] s.shop@[i]).graft@)
                && (s.shop@[i].price matches Some(p) ==> p > 0) by {
                assert(fs(i) is None);
            }
            assert forall|i: int| 0 <= i < s.duelists@.len() implies {
                let d = #[trigger] s.duelists@[i];
                &&& d.party@.len() > 0
                &&& d.reward_scrip >= 0
                &&& d.practice || d.stake is Some
                &&& d.stake matches Some(st) ==> data.graftware@.contains_key(st@) && d.min_stake_value > 0
            } by {
                assert(fd(i) is None);
            }
        }
    }
}

} // verus!
