//! Procedural war-unit outfitting: factory-born creatures come pre-armed.
//! The rules here choose the candidate parts for each mount; the battle
//! seed's draws pick among them.

use crate::collections::{first_index, names_contain};
use crate::combat::unit::{fit_place_problem, fit_view, placement_problem, UnitSpec};
use crate::data::species::limb_has_id;
use crate::data::validation::lemma_scan_clear;
use crate::data::graftware::GraftKind;
use crate::data::species::{SpeciesDef, WeightClass};
use crate::data::GameData;
use crate::text::{
    lemma_text_less_total,
    lemma_text_less_transitive, text_before, text_less,
};
use vstd::prelude::*;

verus! {

/// Whether part `id` may arm a war-unit of Power `power` up to tier
/// `max_tier` on a mount of class `class`: it is defined, within the tier
/// and the Power, and no heavier than the mount.
pub open spec fn war_fit(data: &GameData, id: Seq<char>, power: u32, max_tier: u32, class: WeightClass) -> bool {
    &&& data.graftware@.contains_key(id)
    &&& data.graftware@[id].tier <= max_tier
    &&& data.graftware@[id].min_power <= power
    &&& data.graftware@[id].weight.order() <= class.order()
}

/// Whether some part of kind `want` fits the mount.
pub open spec fn kind_available(data: &GameData, power: u32, max_tier: u32, class: WeightClass, want: GraftKind) -> bool {
    exists|id: Seq<char>| #[trigger] war_fit(data, id, power, max_tier, class) && data.graftware@[id].kind == want
}

/// The candidates for one mount: the fitting parts of kind `want`, or every
/// fitting part when none of that kind fits.
pub open spec fn war_candidate(
    data: &GameData,
    power: u32,
    max_tier: u32,
    class: WeightClass,
    want: GraftKind,
    id: Seq<char>,
) -> bool {
    war_fit(data, id, power, max_tier, class) && (!kind_available(data, power, max_tier, class, want)
        || data.graftware@[id].kind == want)
}

/// Strictly ascending in text order (so each name once).
pub open spec fn ascending(v: Seq<String>) -> bool {
    forall|a: int, b: int| 0 <= a < b < v.len() ==> text_less((#[trigger] v[a])@, (#[trigger] v[b])@)
}

/// Inserts `x` where it keeps `v` ascending.
fn insert_sorted(v: &mut Vec<String>, x: String)
    requires
        ascending(old(v)@),
        !names_contain(old(v)@, x@),
    ensures
        ascending(final(v)@),
        forall|n: Seq<char>| names_contain(final(v)@, n) <==> (names_contain(old(v)@, n) || n == x@),
{
    let mut p: usize = 0;
    let mut stop = false;
    while p < v.len() && !stop
        invariant
            p <= v@.len(),
            v@ == old(v)@,
            !names_contain(old(v)@, x@),
            stop ==> p < v@.len() && text_less(x@, v@[p as int]@),
            forall|k: int| 0 <= k < p ==> text_less((#[trigger] v@[k])@, x@),
        decreases v@.len() - p, if stop { 0int } else { 1int },
    {
        if text_before(x.as_str(), v[p].as_str()) {
            stop = true;
        } else {
            proof {
                assert(v@[p as int]@ != x@) by {
                    if v@[p as int]@ == x@ {
                        assert(names_contain(old(v)@, x@));
                    }
                }
                lemma_text_less_total(v@[p as int]@, x@);
            }
            p = p + 1;
        }
    }
    let ghost before = v@;
    let ghost xv = x@;
    v.insert(p, x);
    proof {
        assert(v@ == before.insert(p as int, v@[p as int]));
        assert forall|a: int, b: int| 0 <= a < b < v@.len() implies text_less((#[trigger] v@[a])@, (#[trigger] v@[b])@) by {
            if b < p {
                assert(v@[a] == before[a] && v@[b] == before[b]);
            } else if b == p {
                assert(v@[a] == before[a]);
            } else if a == p {
                assert(v@[b] == before[b - 1]);
                if b - 1 > p {
                    lemma_text_less_transitive(xv, before[p as int]@, before[b - 1]@);
                }
            } else if a < p {
                assert(v@[a] == before[a] && v@[b] == before[b - 1]);
                if p < before.len() {
                    if b - 1 > p {
                        lemma_text_less_transitive(before[a]@, xv, before[p as int]@);
                        lemma_text_less_transitive(before[a]@, before[p as int]@, before[b - 1]@);
                    } else {
                        lemma_text_less_transitive(before[a]@, xv, before[p as int]@);
                    }
                }
            } else {
                assert(v@[a] == before[a - 1] && v@[b] == before[b - 1]);
            }
        }
        assert forall|n: Seq<char>| names_contain(v@, n) <==> (names_contain(before, n) || n == xv) by {
            if names_contain(v@, n) {
                let i = choose|i: int| 0 <= i < v@.len() && (#[trigger] v@[i])@ == n;
                if i < p {
                    assert(v@[i] == before[i]);
                } else if i > p {
                    assert(v@[i] == before[i - 1]);
                }
            }
            if names_contain(before, n) {
                let i = choose|i: int| 0 <= i < before.len() && (#[trigger] before[i])@ == n;
                if i < p {
                    assert(v@[i] == before[i]);
                } else {
                    assert(v@[i + 1] == before[i]);
                }
            }
            if n == xv {
                assert(v@[p as int]@ == xv);
            }
        }
    }
}

/// The keys of `keys` that fit the mount and, when `want` names a kind, are
/// of that kind, ascending.
fn collect_fitting(
    keys: &Vec<String>,
    data: &GameData,
    power: u32,
    max_tier: u32,
    class: WeightClass,
    want: Option<GraftKind>,
) -> (r: Vec<String>)
    requires
        forall|a: int, b: int| 0 <= a < b < keys@.len() ==> (#[trigger] keys@[a])@ != (#[trigger] keys@[b])@,
    ensures
        ascending(r@),
        forall|n: Seq<char>| names_contain(r@, n) <==> (names_contain(keys@, n) && war_fit(data, n, power, max_tier, class)
            && match want {
            Some(k) => data.graftware@[n].kind == k,
            None => true,
        }),
{
    let mut r: Vec<String> = Vec::new();
    let mut i: usize = 0;
    while i < keys.len()
        invariant
            i <= keys@.len(),
            forall|a: int, b: int| 0 <= a < b < keys@.len() ==> (#[trigger] keys@[a])@ != (#[trigger] keys@[b])@,
            ascending(r@),
            forall|n: Seq<char>| names_contain(r@, n) <==> (exists|j: int| 0 <= j < i && (#[trigger] keys@[j])@ == n
                && war_fit(data, n, power, max_tier, class) && match want {
                Some(k) => data.graftware@[n].kind == k,
                None => true,
            }),
        decreases keys@.len() - i,
    {
        let id = keys[i].as_str();
        let ok = match data.graftware.get(id) {
            Some(g) => g.tier <= max_tier && g.min_power <= power && !g.weight.heavier_than(class) && match want {
                Some(k) => g.kind == k,
                None => true,
            },
            None => false,
        };
        let ghost before = r@;
        if ok {
            proof {
                if names_contain(r@, id@) {
                    let j = choose|j: int| 0 <= j < i && (#[trigger] keys@[j])@ == id@ && war_fit(data, id@, power, max_tier, class)
                        && match want {
                        Some(k) => data.graftware@[id@].kind == k,
                        None => true,
                    };
                    assert(keys@[j]@ != keys@[i as int]@);
                }
            }
            insert_sorted(&mut r, keys[i].clone());
        }
        proof {
            assert forall|n: Seq<char>| names_contain(r@, n) <==> (exists|j: int| 0 <= j < i + 1 && (#[trigger] keys@[j])@ == n
                && war_fit(data, n, power, max_tier, class) && match want {
                Some(k) => data.graftware@[n].kind == k,
                None => true,
            }) by {
                if n == keys@[i as int]@ {
                    if ok {
                        assert(names_contain(r@, n));
                    }
                }
            }
        }
        i = i + 1;
    }
    proof {
        assert forall|n: Seq<char>| names_contain(r@, n) <==> (names_contain(keys@, n) && war_fit(data, n, power, max_tier, class)
            && match want {
            Some(k) => data.graftware@[n].kind == k,
            None => true,
        }) by {
            if names_contain(keys@, n) && war_fit(data, n, power, max_tier, class) && match want {
                Some(k) => data.graftware@[n].kind == k,
                None => true,
            } {
                let j = choose|j: int| 0 <= j < keys@.len() && (#[trigger] keys@[j])@ == n;
                assert(exists|j: int| 0 <= j < i && (#[trigger] keys@[j])@ == n && war_fit(data, n, power, max_tier, class)
                    && match want {
                    Some(k) => data.graftware@[n].kind == k,
                    None => true,
                });
            }
        }
    }
    r
}

/// The candidate parts for one mount of a war-unit of `species` up to tier
/// `max_tier`, in id order (registry order is not stable, and battle
/// generation must be deterministic): the fitting parts of kind `want`, or
/// any fitting part when none of that kind fits. Every candidate fits the
/// mount, so a unit armed from these pools is always legal.
pub fn war_unit_pool(species: &SpeciesDef, data: &GameData, max_tier: u32, class: WeightClass, want: GraftKind) -> (r: Vec<
    String,
>)
    ensures
        ascending(r@),
        forall|n: Seq<char>| names_contain(r@, n) <==> war_candidate(data, species.power, max_tier, class, want, n),
{
    let keys = data.graftware.keys();
    let fits = collect_fitting(&keys, data, species.power, max_tier, class, Some(want));
    if fits.len() > 0 {
        proof {
            let n = fits@[0]@;
            assert(names_contain(fits@, n));
            assert(war_fit(data, n, species.power, max_tier, class) && data.graftware@[n].kind == want);
        }
        return fits;
    }
    let pool = collect_fitting(&keys, data, species.power, max_tier, class, None);
    proof {
        if kind_available(data, species.power, max_tier, class, want) {
            let n = choose|n: Seq<char>| #[trigger] war_fit(data, n, species.power, max_tier, class) && data.graftware@[n].kind == want;
            assert(names_contain(keys@, n));
            assert(names_contain(fits@, n));
        }
    }
    pool
}

/// Two ascending lists holding the same names are the same list: a pool is
/// fixed by what it holds, whatever order the registry is walked in.
pub proof fn ascending_pools_agree(a: Seq<String>, b: Seq<String>)
    requires
        ascending(a),
        ascending(b),
        forall|n: Seq<char>| names_contain(a, n) <==> names_contain(b, n),
    ensures
        a.len() == b.len(),
        forall|i: int| 0 <= i < a.len() ==> (#[trigger] a[i])@ == b[i]@,
    decreases a.len() + b.len(),
{
    if a.len() > 0 && b.len() > 0 {
        // The least element of each list is the least of the shared names.
        assert(names_contain(a, a[0]@));
        assert(names_contain(b, b[0]@));
        let ja = choose|j: int| 0 <= j < b.len() && (#[trigger] b[j])@ == a[0]@;
        let jb = choose|j: int| 0 <= j < a.len() && (#[trigger] a[j])@ == b[0]@;
        if ja > 0 {
            assert(text_less(b[0]@, b[ja]@));
            if jb > 0 {
                assert(text_less(a[0]@, a[jb]@));
                lemma_text_less_transitive(a[0]@, b[0]@, a[0]@);
                crate::text::lemma_text_less_irreflexive(a[0]@);
            } else {
                crate::text::lemma_text_less_irreflexive(a[0]@);
            }
        }
        assert(a[0]@ == b[0]@);
        let ra = a.drop_first();
        let rb = b.drop_first();
        assert(ascending(ra)) by {
            assert forall|x: int, y: int| 0 <= x < y < ra.len() implies text_less((#[trigger] ra[x])@, (#[trigger] ra[y])@) by {
                assert(ra[x] == a[x + 1] && ra[y] == a[y + 1]);
            }
        }
        assert(ascending(rb)) by {
            assert forall|x: int, y: int| 0 <= x < y < rb.len() implies text_less((#[trigger] rb[x])@, (#[trigger] rb[y])@) by {
                assert(rb[x] == b[x + 1] && rb[y] == b[y + 1]);
            }
        }
        assert forall|n: Seq<char>| names_contain(ra, n) <==> names_contain(rb, n) by {
            if names_contain(ra, n) {
                let i = choose|i: int| 0 <= i < ra.len() && (#[trigger] ra[i])@ == n;
                assert(a[i + 1]@ == n);
                assert(text_less(a[0]@, n));
                assert(names_contain(a, n));
                let j = choose|j: int| 0 <= j < b.len() && (#[trigger] b[j])@ == n;
                if j == 0 {
                    crate::text::lemma_text_less_irreflexive(n);
                }
                assert(rb[j - 1]@ == n);
            }
            if names_contain(rb, n) {
                let i = choose|i: int| 0 <= i < rb.len() && (#[trigger] rb[i])@ == n;
                assert(b[i + 1]@ == n);
                assert(text_less(b[0]@, n));
                assert(names_contain(b, n));
                let j = choose|j: int| 0 <= j < a.len() && (#[trigger] a[j])@ == n;
                if j == 0 {
                    crate::text::lemma_text_less_irreflexive(n);
                }
                assert(ra[j - 1]@ == n);
            }
        }
        ascending_pools_agree(ra, rb);
        assert forall|i: int| 0 <= i < a.len() implies (#[trigger] a[i])@ == b[i]@ by {
            if i > 0 {
                assert(ra[i - 1] == a[i] && rb[i - 1] == b[i]);
            }
        }
    } else if a.len() > 0 {
        assert(names_contain(a, a[0]@));
    } else if b.len() > 0 {
        assert(names_contain(b, b[0]@));
    }
}

/// A war-unit outfit whose every graft was drawn from the pool of its own
/// mount can always be placed on the chassis: factory-born units are legal.
pub proof fn pooled_outfits_place(data: &GameData, spec: UnitSpec, max_tier: u32, wants: Seq<GraftKind>)
    requires
        data.species@.contains_key(spec.species_id@),
        wants.len() == spec.grafts@.len(),
        forall|i: int| 0 <= i < spec.grafts@.len() ==> {
            let g = #[trigger] spec.grafts@[i];
            let sp = data.species@[spec.species_id@];
            match first_index(sp.limbs@, limb_has_id(g.0@)) {
                Some(li) => g.1 < sp.limbs@[li].mounts@.len() && war_candidate(
                    data,
                    sp.power,
                    max_tier,
                    sp.limbs@[li].mounts@[g.1 as int],
                    wants[i],
                    g.2@,
                ),
                None => false,
            }
        },
    ensures
        placement_problem(data, &spec) is None,
{
    let sp = data.species@[spec.species_id@];
    let f = fit_place_problem(data, spec.species_id@, sp.limbs@, spec.grafts@);
    assert forall|i: int| 0 <= i < spec.grafts@.len() implies #[trigger] f(i) is None by {
        let g = spec.grafts@[i];
        assert(fit_view(g).0 == g.0@);
    }
    lemma_scan_clear(f, spec.grafts@.len() as int);
}

} // verus!
