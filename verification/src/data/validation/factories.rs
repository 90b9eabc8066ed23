//! Checks on factories, authored unit outfits, and the texture manifest.

use crate::data::factory::FactoryDef;
use crate::data::settlement::{DuelGraftFit, DuelUnitDef};
use crate::data::world::{region_has_id, MapDef};
use crate::collections::names_contain;
use crate::data::species::{limb_has_id, SpeciesDef};
use crate::data::validation::{first_of, lemma_scan_found, lemma_scan_none, outcome, registry_verdict, scan};
use crate::data::{GameData, TextureConfig};
use crate::collections::first_match;
use crate::text::{blank, concat3, has_char, is_blank, nat_text, push_str, push_u64, str_eq};
use vstd::prelude::*;

verus! {

/// Whether an earlier entry of the manifest than entry `i` has its key.
pub open spec fn key_seen(ts: Seq<TextureConfig>, i: int) -> bool {
    exists|j: int| 0 <= j < i && (#[trigger] ts[j]).key@ == ts[i].key@
}

/// The problem of manifest entry `i`: an empty key or path, or a key used
/// before.
pub open spec fn texture_problem(ts: Seq<TextureConfig>) -> spec_fn(int) -> Option<Seq<char>> {
    |i: int|
        if blank(ts[i].key@) || blank(ts[i].path@) || key_seen(ts, i) {
            Some("content validation: texture manifest has duplicate or empty key '"@ + ts[i].key@ + "'"@)
        } else {
            None
        }
}

fn texture_key_seen(ts: &[TextureConfig], i: usize) -> (r: bool)
    requires
        i < ts@.len(),
    ensures
        r == key_seen(ts@, i as int),
{
    let mut j: usize = 0;
    while j < i
        invariant
            i < ts@.len(),
            j <= i,
            forall|k: int| 0 <= k < j ==> (#[trigger] ts@[k]).key@ != ts@[i as int].key@,
        decreases i - j,
    {
        if str_eq(ts[j].key.as_str(), ts[i].key.as_str()) {
            return true;
        }
        j = j + 1;
    }
    false
}

fn check_texture(ts: &[TextureConfig], i: usize) -> (r: Result<(), String>)
    requires
        i < ts@.len(),
    ensures
        outcome(r) == texture_problem(ts@)(i as int),
{
    let t = &ts[i];
    if is_blank(t.key.as_str()) || is_blank(t.path.as_str()) || texture_key_seen(ts, i) {
        let mut m = "content validation: texture manifest has duplicate or empty key '".to_owned();
        push_str(&mut m, t.key.as_str());
        push_str(&mut m, "'");
        return Err(m);
    }
    Ok(())
}

pub fn validate_textures(textures: &[TextureConfig]) -> (r: Result<(), String>)
    ensures
        outcome(r) == scan(textures@.len() as int, texture_problem(textures@)),
{
    let ghost f = texture_problem(textures@);
    let mut i: usize = 0;
    while i < textures.len()
        invariant
            i <= textures@.len(),
            f == texture_problem(textures@),
            scan(i as int, f) is None,
        decreases textures@.len() - i,
    {
        let r = check_texture(textures, i);
        if r.is_err() {
            proof {
                lemma_scan_found(f, i as int, textures@.len() as int);
            }
            return r;
        }
        i = i + 1;
    }
    Ok(())
}

/// Whether an earlier fit than fit `i` uses the same mount.
pub open spec fn mount_seen(gs: Seq<DuelGraftFit>, i: int) -> bool {
    exists|j: int| 0 <= j < i && (#[trigger] gs[j]).limb@ == gs[i].limb@ && gs[j].slot == gs[i].slot
}

/// The problem of fit `i` of an authored outfit on `species`, reported
/// under `context`.
pub open spec fn fit_problem(
    data: &GameData,
    context: Seq<char>,
    species: SpeciesDef,
    gs: Seq<DuelGraftFit>,
) -> spec_fn(int) -> Option<Seq<char>> {
    |i: int|
        {
            let g = gs[i];
            let at = "'"@ + g.limb@ + "'/"@ + nat_text(g.slot as nat);
            match first_match(species.limbs@, limb_has_id(g.limb@)) {
                None => Some("content validation: "@ + context + " references unknown limb '"@ + g.limb@ + "'"@),
                Some(limb) => if g.slot >= limb.mounts@.len() {
                    Some("content validation: "@ + context + " references missing mount "@ + at)
                } else if mount_seen(gs, i) {
                    Some("content validation: "@ + context + " mounts two grafts at "@ + at)
                } else if !data.graftware@.contains_key(g.graft@) {
                    Some("content validation: "@ + context + " references unknown graft '"@ + g.graft@ + "'"@)
                } else if data.graftware@[g.graft@].weight.order() > limb.mounts@[g.slot as int].order()
                    || species.power < data.graftware@[g.graft@].min_power {
                    Some("content validation: "@ + context + " cannot fit graft '"@ + g.graft@ + "' on "@ + at)
                } else {
                    None
                },
            }
        }
}

/// The first problem of an authored outfit: an unknown species, else the
/// first fit that names a missing limb or mount, reuses a mount, names an
/// unknown part, or cannot carry it.
pub open spec fn unit_grafts_problem(
    data: &GameData,
    context: Seq<char>,
    species_id: Seq<char>,
    gs: Seq<DuelGraftFit>,
) -> Option<Seq<char>> {
    if !data.species@.contains_key(species_id) {
        Some("content validation: "@ + context + " references unknown species '"@ + species_id + "'"@)
    } else {
        scan(gs.len() as int, fit_problem(data, context, data.species@[species_id], gs))
    }
}

fn fit_mount_seen(gs: &[DuelGraftFit], i: usize) -> (r: bool)
    requires
        i < gs@.len(),
    ensures
        r == mount_seen(gs@, i as int),
{
    let mut j: usize = 0;
    while j < i
        invariant
            i < gs@.len(),
            j <= i,
            forall|k: int| 0 <= k < j ==> !((#[trigger] gs@[k]).limb@ == gs@[i as int].limb@ && gs@[k].slot == gs@[i as int].slot),
        decreases i - j,
    {
        if gs[j].slot == gs[i].slot && str_eq(gs[j].limb.as_str(), gs[i].limb.as_str()) {
            return true;
        }
        j = j + 1;
    }
    false
}

/// `context`, the words `words`, then the mount `'limb'/slot`.
fn mount_message(context: &str, words: &str, limb: &str, slot: usize) -> (r: String)
    ensures
        r@ == "content validation: "@ + context@ + words@ + ("'"@ + limb@ + "'/"@ + nat_text(slot as nat)),
{
    let mut m = "content validation: ".to_owned();
    push_str(&mut m, context);
    push_str(&mut m, words);
    push_str(&mut m, "'");
    push_str(&mut m, limb);
    push_str(&mut m, "'/");
    push_u64(&mut m, slot as u64);
    assert(m@ =~= "content validation: "@ + context@ + words@ + ("'"@ + limb@ + "'/"@ + nat_text(slot as nat)));
    m
}

fn check_fit(
    data: &GameData,
    context: &str,
    species: &SpeciesDef,
    gs: &[DuelGraftFit],
    i: usize,
) -> (r: Result<(), String>)
    requires
        i < gs@.len(),
    ensures
        outcome(r) == fit_problem(data, context@, *species, gs@)(i as int),
{
    let g = &gs[i];
    let limb = match species.limb(g.limb.as_str()) {
        Some(l) => l,
        None => {
            let mut m = "content validation: ".to_owned();
            push_str(&mut m, context);
            push_str(&mut m, " references unknown limb '");
            push_str(&mut m, g.limb.as_str());
            push_str(&mut m, "'");
            return Err(m);
        },
    };
    if g.slot >= limb.mounts.len() {
        return Err(mount_message(context, " references missing mount ", g.limb.as_str(), g.slot));
    }
    let mount_class = limb.mounts[g.slot];
    if fit_mount_seen(gs, i) {
        return Err(mount_message(context, " mounts two grafts at ", g.limb.as_str(), g.slot));
    }
    let def = match data.graftware.get(g.graft.as_str()) {
        Some(d) => d,
        None => {
            let mut m = "content validation: ".to_owned();
            push_str(&mut m, context);
            push_str(&mut m, " references unknown graft '");
            push_str(&mut m, g.graft.as_str());
            push_str(&mut m, "'");
            return Err(m);
        },
    };
    if def.weight.heavier_than(mount_class) || species.power < def.min_power {
        let mut m = "content validation: ".to_owned();
        push_str(&mut m, context);
        push_str(&mut m, " cannot fit graft '");
        push_str(&mut m, g.graft.as_str());
        push_str(&mut m, "' on ");
        push_str(&mut m, "'");
        push_str(&mut m, g.limb.as_str());
        push_str(&mut m, "'/");
        push_u64(&mut m, g.slot as u64);
        assert(m@ =~= "content validation: "@ + context@ + " cannot fit graft '"@ + g.graft@ + "' on "@
            + ("'"@ + g.limb@ + "'/"@ + nat_text(g.slot as nat)));
        return Err(m);
    }
    Ok(())
}

pub fn validate_unit_grafts(
    data: &GameData,
    context: &str,
    species_id: &str,
    grafts: &[DuelGraftFit],
) -> (r: Result<(), String>)
    ensures
        outcome(r) == unit_grafts_problem(data, context@, species_id@, grafts@),
{
    let species = match data.species.get(species_id) {
        Some(s) => s,
        None => {
            let mut m = "content validation: ".to_owned();
            push_str(&mut m, context);
            push_str(&mut m, " references unknown species '");
            push_str(&mut m, species_id);
            push_str(&mut m, "'");
            return Err(m);
        },
    };
    let ghost f = fit_problem(data, context@, *species, grafts@);
    let mut i: usize = 0;
    while i < grafts.len()
        invariant
            i <= grafts@.len(),
            f == fit_problem(data, context@, *species, grafts@),
            data.species@.contains_key(species_id@),
            *species == data.species@[species_id@],
            scan(i as int, f) is None,
        decreases grafts@.len() - i,
    {
        let r = check_fit(data, context, species, grafts, i);
        if r.is_err() {
            proof {
                lemma_scan_found(f, i as int, grafts@.len() as int);
            }
            return r;
        }
        i = i + 1;
    }
    Ok(())
}

/// Whether some row of a map holds a heart tile.
pub open spec fn has_heart(rows: Seq<String>) -> bool {
    exists|i: int| 0 <= i < rows.len() && (#[trigger] rows[i])@.contains('H')
}

/// Whether an earlier floor than floor `i` has its id.
pub open spec fn floor_seen(floors: Seq<MapDef>, i: int) -> bool {
    exists|j: int| 0 <= j < i && (#[trigger] floors[j]).id@ == floors[i].id@
}

/// The problem of floor `i` of factory `id`: a repeated id, or being the
/// deepest floor without a heart.
pub open spec fn floor_problem(id: Seq<char>, floors: Seq<MapDef>) -> spec_fn(int) -> Option<Seq<char>> {
    |i: int|
        if floor_seen(floors, i) {
            Some("content validation: factory '"@ + id + "' has duplicate floor '"@ + floors[i].id@ + "'"@)
        } else if i + 1 == floors.len() && !has_heart(floors[i].rows@) {
            Some("content validation: factory '"@ + id + "' has a heartless deepest floor"@)
        } else {
            None
        }
}

/// The problem of grown species `i` of factory `id`: an unknown species.
pub open spec fn grow_problem(data: &GameData, id: Seq<char>, grows: Seq<String>) -> spec_fn(int) -> Option<Seq<char>> {
    |i: int|
        if !data.species@.contains_key(grows[i]@) {
            Some("content validation: factory '"@ + id + "' grows unknown species '"@ + grows[i]@ + "'"@)
        } else {
            None
        }
}

/// The problem of heart guard `i` of factory `id`: its outfit's first
/// problem.
pub open spec fn guard_problem(data: &GameData, id: Seq<char>, guard: Seq<DuelUnitDef>) -> spec_fn(int) -> Option<Seq<char>> {
    |i: int| unit_grafts_problem(data, "factory '"@ + id + "' guard"@, guard[i].species@, guard[i].grafts@)
}

/// The first problem of the factory stored under `id`: a broken setup, else
/// its floors, grown species and heart guard in turn.
pub open spec fn factory_problem(data: &GameData) -> spec_fn(Seq<char>) -> Option<Seq<char>> {
    |id: Seq<char>|
        {
            let f = data.factories@[id];
            if f.id@ != id || first_match(data.world.regions@, region_has_id(f.region@)) is None || f.floors@.len()
                == 0 || f.heart_guard@.len() == 0 || f.grow_cost <= 0 {
                Some("content validation: factory '"@ + id + "' has incomplete setup"@)
            } else {
                first_of(
                    scan(f.floors@.len() as int, floor_problem(id, f.floors@)),
                    first_of(
                        scan(f.grows@.len() as int, grow_problem(data, id, f.grows@)),
                        scan(f.heart_guard@.len() as int, guard_problem(data, id, f.heart_guard@)),
                    ),
                )
            }
        }
}

fn rows_have_heart(rows: &Vec<String>) -> (r: bool)
    ensures
        r == has_heart(rows@),
{
    let mut i: usize = 0;
    while i < rows.len()
        invariant
            i <= rows@.len(),
            forall|j: int| 0 <= j < i ==> !(#[trigger] rows@[j])@.contains('H'),
        decreases rows@.len() - i,
    {
        if has_char(rows[i].as_str(), 'H') {
            return true;
        }
        i = i + 1;
    }
    false
}

fn check_floor(id: &str, floors: &Vec<MapDef>, i: usize) -> (r: Result<(), String>)
    requires
        i < floors@.len(),
    ensures
        outcome(r) == floor_problem(id@, floors@)(i as int),
{
    let mut j: usize = 0;
    while j < i
        invariant
            i < floors@.len(),
            j <= i,
            forall|k: int| 0 <= k < j ==> (#[trigger] floors@[k]).id@ != floors@[i as int].id@,
        decreases i - j,
    {
        if str_eq(floors[j].id.as_str(), floors[i].id.as_str()) {
            let mut m = "content validation: factory '".to_owned();
            push_str(&mut m, id);
            push_str(&mut m, "' has duplicate floor '");
            push_str(&mut m, floors[i].id.as_str());
            push_str(&mut m, "'");
            return Err(m);
        }
        j = j + 1;
    }
    if i == floors.len() - 1 && !rows_have_heart(&floors[i].rows) {
        return Err(concat3("content validation: factory '", id, "' has a heartless deepest floor"));
    }
    Ok(())
}

#[verifier::loop_isolation(false)]
fn check_factory(data: &GameData, id: &str, f: &FactoryDef) -> (r: Result<(), String>)
    requires
        data.factories@.contains_key(id@),
        *f == data.factories@[id@],
    ensures
        outcome(r) == factory_problem(data)(id@),
{
    if !str_eq(f.id.as_str(), id) || data.world.region(f.region.as_str()).is_none() || f.floors.len() == 0
        || f.heart_guard.len() == 0 || f.grow_cost <= 0 {
        return Err(concat3("content validation: factory '", id, "' has incomplete setup"));
    }
    let ghost floors_f = floor_problem(id@, f.floors@);
    let mut i: usize = 0;
    while i < f.floors.len()
        invariant
            i <= f.floors@.len(),
            floors_f == floor_problem(id@, f.floors@),
            scan(i as int, floors_f) is None,
        decreases f.floors@.len() - i,
    {
        let r = check_floor(id, &f.floors, i);
        if r.is_err() {
            proof {
                lemma_scan_found(floors_f, i as int, f.floors@.len() as int);
            }
            return r;
        }
        i = i + 1;
    }
    let ghost grows_f = grow_problem(data, id@, f.grows@);
    let mut i: usize = 0;
    while i < f.grows.len()
        invariant
            i <= f.grows@.len(),
            grows_f == grow_problem(data, id@, f.grows@),
            scan(i as int, grows_f) is None,
        decreases f.grows@.len() - i,
    {
        if !data.species.contains_key(f.grows[i].as_str()) {
            let mut m = "content validation: factory '".to_owned();
            push_str(&mut m, id);
            push_str(&mut m, "' grows unknown species '");
            push_str(&mut m, f.grows[i].as_str());
            push_str(&mut m, "'");
            proof {
                lemma_scan_found(grows_f, i as int, f.grows@.len() as int);
            }
            return Err(m);
        }
        i = i + 1;
    }
    let context = concat3("factory '", id, "' guard");
    let ghost guard_f = guard_problem(data, id@, f.heart_guard@);
    let mut i: usize = 0;
    while i < f.heart_guard.len()
        invariant
            i <= f.heart_guard@.len(),
            guard_f == guard_problem(data, id@, f.heart_guard@),
            context@ == "factory '"@ + id@ + "' guard"@,
            scan(i as int, guard_f) is None,
        decreases f.heart_guard@.len() - i,
    {
        let unit = &f.heart_guard[i];
        let r = validate_unit_grafts(data, context.as_str(), unit.species.as_str(), unit.grafts.as_slice());
        if r.is_err() {
            proof {
                lemma_scan_found(guard_f, i as int, f.heart_guard@.len() as int);
            }
            return r;
        }
        i = i + 1;
    }
    Ok(())
}

pub fn validate_factories(data: &GameData) -> (r: Result<(), String>)
    ensures
        registry_verdict(data.factories@, factory_problem(data), outcome(r)),
{
    let keys = data.factories.keys();
    let ghost f = factory_problem(data);
    let mut i: usize = 0;
    while i < keys.len()
        invariant
            i <= keys@.len(),
            f == factory_problem(data),
            forall|n: Seq<char>| names_contain(keys@, n) <==> data.factories@.contains_key(n),
            forall|j: int| 0 <= j < i ==> f((#[trigger] keys@[j])@) is None,
        decreases keys@.len() - i,
    {
        let id = keys[i].as_str();
        assert(names_contain(keys@, keys@[i as int]@));
        let factory = match data.factories.get(id) {
            Some(x) => x,
            None => vstd::pervasive::unreached(),
        };
        let r = check_factory(data, id, factory);
        if r.is_err() {
            return r;
        }
        i = i + 1;
    }
    proof {
        assert forall|k: Seq<char>| #[trigger] data.factories@.contains_key(k) implies f(k) is None by {
            assert(names_contain(keys@, k));
            let j = choose|j: int| 0 <= j < keys@.len() && (#[trigger] keys@[j])@ == k;
            assert(f(keys@[j]@) is None);
        }
    }
    Ok(())
}

/// A manifest that passes gives every texture a non-blank key and path, and
/// no two textures the same key.
pub proof fn validated_textures_are_distinct(textures: Seq<TextureConfig>, r: Result<(), String>)
    requires
        outcome(r) == scan(textures.len() as int, texture_problem(textures)),
    ensures
        r is Ok ==> {
            &&& forall|i: int| 0 <= i < textures.len() ==> !blank((#[trigger] textures[i]).key@) && !blank(textures[i].path@)
            &&& forall|a: int, b: int| 0 <= a < b < textures.len() ==> (#[trigger] textures[a]).key@ != (#[trigger] textures[b]).key@
        },
{
    if r is Ok {
        let f = texture_problem(textures);
        lemma_scan_none(f, textures.len() as int);
        assert forall|i: int| 0 <= i < textures.len() implies !blank((#[trigger] textures[i]).key@) && !blank(textures[i].path@) by {
            assert(f(i) is None);
        }
        assert forall|a: int, b: int| 0 <= a < b < textures.len() implies (#[trigger] textures[a]).key@ != (#[trigger] textures[b]).key@ by {
            assert(f(b) is None);
            assert(!key_seen(textures, b));
        }
    }
}

/// An authored outfit that passes is of a known species and puts each part,
/// a defined one, on an existing mount of a limb of that species, one part
/// per mount, never heavier than the mount and never above the species'
/// power.
pub proof fn validated_outfits_fit(
    data: &GameData,
    context: Seq<char>,
    species_id: Seq<char>,
    grafts: Seq<DuelGraftFit>,
    r: Result<(), String>,
)
    requires
        outcome(r) == unit_grafts_problem(data, context, species_id, grafts),
    ensures
        r is Ok ==> {
            &&& data.species@.contains_key(species_id)
            &&& forall|i: int| 0 <= i < grafts.len() ==> {
                let g = #[trigger] grafts[i];
                let sp = data.species@[species_id];
                exists|li: int| {
                    &&& 0 <= li < sp.limbs@.len()
                    &&& #[trigger] sp.limbs@[li].id@ == g.limb@
                    &&& g.slot < sp.limbs@[li].mounts@.len()
                    &&& data.graftware@.contains_key(g.graft@)
                    &&& data.graftware@[g.graft@].weight.order() <= sp.limbs@[li].mounts@[g.slot as int].order()
                    &&& sp.power >= data.graftware@[g.graft@].min_power
                }
            }
            &&& forall|a: int, b: int| 0 <= a < b < grafts.len() ==> !((#[trigger] grafts[a]).limb@ == (#[trigger] grafts[b]).limb@
                && grafts[a].slot == grafts[b].slot)
        },
{
    if r is Ok {
        let sp = data.species@[species_id];
        let f = fit_problem(data, context, sp, grafts);
        lemma_scan_none(f, grafts.len() as int);
        assert forall|i: int| 0 <= i < grafts.len() implies {
            let g = #[trigger] grafts[i];
            exists|li: int| {
                &&& 0 <= li < sp.limbs@.len()
                &&& #[trigger] sp.limbs@[li].id@ == g.limb@
                &&& g.slot < sp.limbs@[li].mounts@.len()
                &&& data.graftware@.contains_key(g.graft@)
                &&& data.graftware@[g.graft@].weight.order() <= sp.limbs@[li].mounts@[g.slot as int].order()
                &&& sp.power >= data.graftware@[g.graft@].min_power
            }
        } by {
            assert(f(i) is None);
            crate::collections::lemma_first_index_facts(sp.limbs@, limb_has_id(grafts[i].limb@));
            let li = crate::collections::first_index(sp.limbs@, limb_has_id(grafts[i].limb@))->0;
            assert(sp.limbs@[li].id@ == grafts[i].limb@);
        }
        assert forall|a: int, b: int| 0 <= a < b < grafts.len() implies !((#[trigger] grafts[a]).limb@ == (#[trigger] grafts[b]).limb@
            && grafts[a].slot == grafts[b].slot) by {
            assert(f(b) is None);
            crate::collections::lemma_first_index_facts(sp.limbs@, limb_has_id(grafts[b].limb@));
            assert(!mount_seen(grafts, b));
        }
    }
}

/// Factories that pass are stored under their own ids in a defined region,
/// have floors with distinct ids whose deepest one holds a heart, a heart
/// guard, a positive grow cost, and grow only known species.
pub proof fn validated_factories_are_sound(data: &GameData, r: Result<(), String>)
    requires
        registry_verdict(data.factories@, factory_problem(data), outcome(r)),
    ensures
        r is Ok ==> forall|id: Seq<char>| #[trigger] data.factories@.contains_key(id) ==> {
            let f = data.factories@[id];
            &&& f.id@ == id
            &&& exists|g: int| 0 <= g < data.world.regions@.len() && (#[trigger] data.world.regions@[g]).id@ == f.region@
            &&& f.floors@.len() > 0 && f.heart_guard@.len() > 0 && f.grow_cost > 0
            &&& forall|a: int, b: int| 0 <= a < b < f.floors@.len() ==> (#[trigger] f.floors@[a]).id@ != (#[trigger] f.floors@[b]).id@
            &&& exists|k: int| 0 <= k < f.floors@.last().rows@.len() && (#[trigger] f.floors@.last().rows@[k])@.contains('H')
            &&& forall|i: int| 0 <= i < f.grows@.len() ==> data.species@.contains_key((#[trigger] f.grows@[i])@)
        },
{
    if r is Ok {
        assert forall|id: Seq<char>| #[trigger] data.factories@.contains_key(id) implies {
            let f = data.factories@[id];
            &&& f.id@ == id
            &&& exists|g: int| 0 <= g < data.world.regions@.len() && (#[trigger] data.world.regions@[g]).id@ == f.region@
            &&& f.floors@.len() > 0 && f.heart_guard@.len() > 0 && f.grow_cost > 0
            &&& forall|a: int, b: int| 0 <= a < b < f.floors@.len() ==> (#[trigger] f.floors@[a]).id@ != (#[trigger] f.floors@[b]).id@
            &&& exists|k: int| 0 <= k < f.floors@.last().rows@.len() && (#[trigger] f.floors@.last().rows@[k])@.contains('H')
            &&& forall|i: int| 0 <= i < f.grows@.len() ==> data.species@.contains_key((#[trigger] f.grows@[i])@)
        } by {
            let f = data.factories@[id];
            assert(factory_problem(data)(id) is None);
            crate::collections::lemma_first_index_facts(data.world.regions@, region_has_id(f.region@));
            let g = crate::collections::first_index(data.world.regions@, region_has_id(f.region@))->0;
            assert(data.world.regions@[g].id@ == f.region@);
            let ff = floor_problem(id, f.floors@);
            let fg = grow_problem(data, id, f.grows@);
            lemma_scan_none(ff, f.floors@.len() as int);
            lemma_scan_none(fg, f.grows@.len() as int);
            assert forall|a: int, b: int| 0 <= a < b < f.floors@.len() implies (#[trigger] f.floors@[a]).id@ != (#[trigger] f.floors@[b]).id@ by {
                assert(ff(b) is None);
                assert(!floor_seen(f.floors@, b));
            }
            assert(ff(f.floors@.len() - 1) is None);
            assert(has_heart(f.floors@[f.floors@.len() - 1].rows@));
            assert forall|i: int| 0 <= i < f.grows@.len() implies data.species@.contains_key((#[trigger] f.grows@[i])@) by {
                assert(fg(i) is None);
            }
        }
    }
}

} // verus!
