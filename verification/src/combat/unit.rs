//! What a battle unit is built from, and how its grafts land on the chassis.

use crate::collections::{first_index, lemma_first_index_at, lemma_first_index_none};
use crate::combat::{Side, Stance};
use crate::data::species::{limb_has_id, LimbDef};
use crate::data::validation::{lemma_scan_found, lemma_scan_none, scan};
use crate::data::GameData;
use crate::text::{nat_text, push_str, push_u64, str_eq};
use vstd::prelude::*;

verus! {

/// A magazine of special ammunition loaded into a weapon mount.
#[derive(Debug, Clone)]
pub struct LoadedAmmo {
    /// Consumable def id that was loaded (its stats drive the shot).
    pub def_id: String,
    /// Shots left before the weapon reverts to standard fire.
    pub rounds: u32,
}

/// Everything needed to build a battle unit, for either side.
#[derive(Debug, Clone)]
pub struct UnitSpec {
    pub species_id: String,
    pub name: String,
    pub side: Side,
    /// Roster id for player creatures (links battle results back).
    pub creature_id: Option<u64>,
    /// The IEEE-754 bits of the bond level, carried into the fight unread.
    pub bond_bits: u32,
    pub stance: Stance,
    /// (limb_id, slot, graft def id, backing item id).
    pub grafts: Vec<(String, usize, String, Option<u64>)>,
}

/// A graft of a unit spec as plain values.
pub open spec fn fit_view(g: (String, usize, String, Option<u64>)) -> (Seq<char>, usize, Seq<char>, Option<u64>) {
    (g.0@, g.1, g.2@, g.3)
}

/// Where one graft of a unit spec sits: the index of its host limb in the
/// species' limb list, its def id, and its backing item.
#[derive(Debug, Clone)]
pub struct MountPlacement {
    pub limb_index: usize,
    pub def_id: String,
    pub item_id: Option<u64>,
}

/// `"{limb}/{slot}"`.
pub open spec fn mount_label(limb: Seq<char>, slot: usize) -> Seq<char> {
    limb + "/"@ + nat_text(slot as nat)
}

/// The problem of graft `i` of a unit of species `species_id` with limbs
/// `limbs`: no such limb, no such mount, an unknown part, or a part too
/// heavy for the mount.
pub open spec fn fit_place_problem(
    data: &GameData,
    species_id: Seq<char>,
    limbs: Seq<LimbDef>,
    gs: Seq<(String, usize, String, Option<u64>)>,
) -> spec_fn(int) -> Option<Seq<char>> {
    |i: int|
        {
            let (limb_id, slot, def_id, _) = fit_view(gs[i]);
            match first_index(limbs, limb_has_id(limb_id)) {
                None => Some(species_id + ": no limb "@ + limb_id),
                Some(li) => if slot >= limbs[li].mounts@.len() {
                    Some(species_id + ": no mount "@ + mount_label(limb_id, slot))
                } else if !data.graftware@.contains_key(def_id) {
                    Some("unknown graftware "@ + def_id)
                } else if data.graftware@[def_id].weight.order() > limbs[li].mounts@[slot as int].order() {
                    Some(def_id + " too heavy for "@ + mount_label(limb_id, slot))
                } else {
                    None
                },
            }
        }
}

/// The first reason a unit cannot be built from `spec`: an unknown species,
/// else its first graft that does not fit.
pub open spec fn placement_problem(data: &GameData, spec: &UnitSpec) -> Option<Seq<char>> {
    if !data.species@.contains_key(spec.species_id@) {
        Some("unknown species "@ + spec.species_id@)
    } else {
        scan(
            spec.grafts@.len() as int,
            fit_place_problem(data, spec.species_id@, data.species@[spec.species_id@].limbs@, spec.grafts@),
        )
    }
}

fn limb_position(limbs: &Vec<LimbDef>, id: &str) -> (r: Option<usize>)
    ensures
        r matches Some(i) ==> first_index(limbs@, limb_has_id(id@)) == Some(i as int) && i < limbs@.len(),
        r is None ==> first_index(limbs@, limb_has_id(id@)) is None,
{
    let mut i: usize = 0;
    while i < limbs.len()
        invariant
            i <= limbs@.len(),
            forall|j: int| 0 <= j < i ==> !limb_has_id(id@)(#[trigger] limbs@[j]),
        decreases limbs@.len() - i,
    {
        if str_eq(limbs[i].id.as_str(), id) {
            proof {
                lemma_first_index_at(limbs@, limb_has_id(id@), i as int);
            }
            return Some(i);
        }
        i = i + 1;
    }
    proof {
        lemma_first_index_none(limbs@, limb_has_id(id@));
    }
    None
}

fn mount_text(limb: &str, slot: usize) -> (r: String)
    ensures
        r@ == mount_label(limb@, slot),
{
    let mut m = limb.to_owned();
    push_str(&mut m, "/");
    push_u64(&mut m, slot as u64);
    m
}

/// Resolves every graft of `spec` to a mount of its species, in order, or
/// reports the first one that does not fit. The battle engine builds the
/// unit's mounts from these placements.
pub fn place_mounts(spec: &UnitSpec, data: &GameData) -> (r: Result<Vec<MountPlacement>, String>)
    ensures
        match r {
            Err(e) => placement_problem(data, spec) == Some(e@),
            Ok(v) => {
                &&& placement_problem(data, spec) is None
                &&& v@.len() == spec.grafts@.len()
                &&& forall|i: int| 0 <= i < v@.len() ==> {
                    &&& Some((#[trigger] v@[i]).limb_index as int) == first_index(
                        data.species@[spec.species_id@].limbs@,
                        limb_has_id(spec.grafts@[i].0@),
                    )
                    &&& v@[i].def_id@ == spec.grafts@[i].2@
                    &&& v@[i].item_id == spec.grafts@[i].3
                }
                &&& data.species@.contains_key(spec.species_id@)
                &&& forall|i: int| 0 <= i < spec.grafts@.len() ==> {
                    let limbs = data.species@[spec.species_id@].limbs@;
                    let li = v@[i].limb_index as int;
                    let g = #[trigger] spec.grafts@[i];
                    &&& 0 <= li < limbs.len()
                    &&& limbs[li].id@ == g.0@
                    &&& g.1 < limbs[li].mounts@.len()
                    &&& data.graftware@.contains_key(g.2@)
                    &&& data.graftware@[g.2@].weight.order() <= limbs[li].mounts@[g.1 as int].order()
                }
            },
        },
{
    let species = match data.species.get(spec.species_id.as_str()) {
        Some(s) => s,
        None => {
            let mut m = "unknown species ".to_owned();
            push_str(&mut m, spec.species_id.as_str());
            return Err(m);
        },
    };
    let ghost f = fit_place_problem(data, spec.species_id@, species.limbs@, spec.grafts@);
    let mut out: Vec<MountPlacement> = Vec::new();
    let mut i: usize = 0;
    while i < spec.grafts.len()
        invariant
            i <= spec.grafts@.len(),
            f == fit_place_problem(data, spec.species_id@, species.limbs@, spec.grafts@),
            data.species@.contains_key(spec.species_id@),
            *species == data.species@[spec.species_id@],
            scan(i as int, f) is None,
            out@.len() == i,
            forall|k: int| 0 <= k < i ==> {
                &&& Some((#[trigger] out@[k]).limb_index as int) == first_index(species.limbs@, limb_has_id(spec.grafts@[k].0@))
                &&& out@[k].def_id@ == spec.grafts@[k].2@
                &&& out@[k].item_id == spec.grafts@[k].3
            },
        decreases spec.grafts@.len() - i,
    {
        let g = &spec.grafts[i];
        let limb_index = match limb_position(&species.limbs, g.0.as_str()) {
            Some(li) => li,
            None => {
                let mut m = spec.species_id.clone();
                push_str(&mut m, ": no limb ");
                push_str(&mut m, g.0.as_str());
                proof {
                    lemma_scan_found(f, i as int, spec.grafts@.len() as int);
                }
                return Err(m);
            },
        };
        let limb = &species.limbs[limb_index];
        if g.1 >= limb.mounts.len() {
            let mut m = spec.species_id.clone();
            push_str(&mut m, ": no mount ");
            let at = mount_text(g.0.as_str(), g.1);
            push_str(&mut m, at.as_str());
            proof {
                lemma_scan_found(f, i as int, spec.grafts@.len() as int);
            }
            return Err(m);
        }
        let mount_class = limb.mounts[g.1];
        let def = match data.graftware.get(g.2.as_str()) {
            Some(d) => d,
            None => {
                let mut m = "unknown graftware ".to_owned();
                push_str(&mut m, g.2.as_str());
                proof {
                    lemma_scan_found(f, i as int, spec.grafts@.len() as int);
                }
                return Err(m);
            },
        };
        if def.weight.heavier_than(mount_class) {
            let mut m = g.2.clone();
            push_str(&mut m, " too heavy for ");
            let at = mount_text(g.0.as_str(), g.1);
            push_str(&mut m, at.as_str());
            proof {
                lemma_scan_found(f, i as int, spec.grafts@.len() as int);
            }
            return Err(m);
        }
        out.push(MountPlacement { limb_index, def_id: g.2.clone(), item_id: g.3 });
        i = i + 1;
    }
    proof {
        lemma_scan_none(f, spec.grafts@.len() as int);
        assert forall|i: int| 0 <= i < spec.grafts@.len() implies {
            let limbs = data.species@[spec.species_id@].limbs@;
            let li = out@[i].limb_index as int;
            let g = #[trigger] spec.grafts@[i];
            &&& 0 <= li < limbs.len()
            &&& limbs[li].id@ == g.0@
            &&& g.1 < limbs[li].mounts@.len()
            &&& data.graftware@.contains_key(g.2@)
            &&& data.graftware@[g.2@].weight.order() <= limbs[li].mounts@[g.1 as int].order()
        } by {
            assert(f(i) is None);
            crate::collections::lemma_first_index_facts(species.limbs@, limb_has_id(spec.grafts@[i].0@));
        }
    }
    Ok(out)
}

} // verus!
