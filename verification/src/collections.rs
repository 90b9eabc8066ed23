//! Small keyed collections with string keys: a set of names and a map from
//! names to values. They stand for the hash maps and sets the game keeps of
//! story flags, quest progress, duel ranks and consumables.

use crate::text::str_eq;
use vstd::prelude::*;

verus! {

/// `r` refers to the value held by `o` (both empty, or both holding it).
pub open spec fn refers_to<T>(r: Option<&T>, o: Option<T>) -> bool {
    match r {
        Some(x) => o == Some(*x),
        None => o is None,
    }
}

/// Position of the first element of `s` satisfying `p`.
pub open spec fn first_index<T>(s: Seq<T>, p: spec_fn(T) -> bool) -> Option<int>
    decreases s.len(),
{
    if s.len() == 0 {
        None
    } else if p(s[0]) {
        Some(0)
    } else {
        match first_index(s.drop_first(), p) {
            Some(i) => Some(i + 1),
            None => None,
        }
    }
}

/// The first element of `s` satisfying `p`.
pub open spec fn first_match<T>(s: Seq<T>, p: spec_fn(T) -> bool) -> Option<T> {
    match first_index(s, p) {
        Some(i) => Some(s[i]),
        None => None,
    }
}

/// When no element before `i` satisfies `p` and `s[i]` does, `i` is the first
/// position.
pub proof fn lemma_first_index_at<T>(s: Seq<T>, p: spec_fn(T) -> bool, i: int)
    requires
        0 <= i < s.len(),
        p(s[i]),
        forall|j: int| 0 <= j < i ==> !p(#[trigger] s[j]),
    ensures
        first_index(s, p) == Some(i),
    decreases i,
{
    if i > 0 {
        assert(!p(s[0]));
        assert forall|j: int| 0 <= j < i - 1 implies !p(#[trigger] s.drop_first()[j]) by {
            assert(s.drop_first()[j] == s[j + 1]);
        }
        lemma_first_index_at(s.drop_first(), p, i - 1);
    }
}

/// When no element satisfies `p` there is no first position.
pub proof fn lemma_first_index_none<T>(s: Seq<T>, p: spec_fn(T) -> bool)
    requires
        forall|j: int| 0 <= j < s.len() ==> !p(#[trigger] s[j]),
    ensures
        first_index(s, p) is None,
    decreases s.len(),
{
    if s.len() > 0 {
        assert(!p(s[0]));
        assert forall|j: int| 0 <= j < s.len() - 1 implies !p(#[trigger] s.drop_first()[j]) by {
            assert(s.drop_first()[j] == s[j + 1]);
        }
        lemma_first_index_none(s.drop_first(), p);
    }
}

/// The first position, when there is one, holds an element satisfying `p`
/// and nothing before it does.
pub proof fn lemma_first_index_facts<T>(s: Seq<T>, p: spec_fn(T) -> bool)
    ensures
        first_index(s, p) matches Some(i) ==> 0 <= i < s.len() && p(s[i]) && forall|j: int|
            0 <= j < i ==> !p(#[trigger] s[j]),
        first_index(s, p) is None ==> forall|j: int| 0 <= j < s.len() ==> !p(#[trigger] s[j]),
    decreases s.len(),
{
    if s.len() > 0 && !p(s[0]) {
        lemma_first_index_facts(s.drop_first(), p);
        assert forall|j: int| 0 <= j < s.len() - 1 implies s.drop_first()[j] == s[j + 1] by {}
        if let Some(i) = first_index(s, p) {
            assert forall|j: int| 0 <= j < i implies !p(#[trigger] s[j]) by {
                if j > 0 {
                    assert(s[j] == s.drop_first()[j - 1]);
                }
            }
        } else {
            assert forall|j: int| 0 <= j < s.len() implies !p(#[trigger] s[j]) by {
                if j > 0 {
                    assert(s[j] == s.drop_first()[j - 1]);
                }
            }
        }
    }
}

/// Two sequences whose elements agree on `p` place by place have the same
/// first position satisfying `p`.
pub proof fn lemma_first_index_agree<T>(a: Seq<T>, b: Seq<T>, p: spec_fn(T) -> bool)
    requires
        a.len() == b.len(),
        forall|k: int| 0 <= k < a.len() ==> p(#[trigger] a[k]) == p(b[k]),
    ensures
        first_index(a, p) == first_index(b, p),
    decreases a.len(),
{
    if a.len() > 0 {
        assert forall|k: int| 0 <= k < a.drop_first().len() implies p(#[trigger] a.drop_first()[k]) == p(b.drop_first()[k]) by {
            assert(a.drop_first()[k] == a[k + 1]);
            assert(b.drop_first()[k] == b[k + 1]);
        }
        assert(p(a[0]) == p(b[0]));
        lemma_first_index_agree(a.drop_first(), b.drop_first(), p);
    }
}

/// The elements of `s` satisfying `p`, in order.
pub open spec fn keep<T>(s: Seq<T>, p: spec_fn(T) -> bool) -> Seq<T>
    decreases s.len(),
{
    if s.len() == 0 {
        s
    } else if p(s.last()) {
        keep(s.drop_last(), p).push(s.last())
    } else {
        keep(s.drop_last(), p)
    }
}

/// Whether `x` occurs in `s`.
pub open spec fn occurs<T>(s: Seq<T>, x: T) -> bool {
    exists|i: int| 0 <= i < s.len() && s[i] == x
}

/// An element survives `keep` exactly when it was there and satisfies `p`.
pub proof fn lemma_keep_occurs<T>(s: Seq<T>, p: spec_fn(T) -> bool, x: T)
    ensures
        occurs(keep(s, p), x) == (occurs(s, x) && p(x)),
    decreases s.len(),
{
    if s.len() > 0 {
        lemma_keep_occurs(s.drop_last(), p, x);
        let k = keep(s.drop_last(), p);
        if occurs(s, x) && p(x) {
            let i = choose|i: int| 0 <= i < s.len() && s[i] == x;
            if i < s.len() - 1 {
                assert(s.drop_last()[i] == x);
            }
        }
        if occurs(s.drop_last(), x) {
            let i = choose|i: int| 0 <= i < s.drop_last().len() && s.drop_last()[i] == x;
            assert(s[i] == x);
        }
        if p(s.last()) {
            if occurs(k.push(s.last()), x) {
                let i = choose|i: int| 0 <= i < k.push(s.last()).len() && k.push(s.last())[i] == x;
                if i < k.len() {
                    assert(k[i] == x);
                } else {
                    assert(s[s.len() - 1] == x);
                }
            }
            if occurs(k, x) {
                let i = choose|i: int| 0 <= i < k.len() && k[i] == x;
                assert(k.push(s.last())[i] == x);
            }
            if x == s.last() {
                assert(k.push(s.last())[k.len() as int] == x);
            }
        } else {
            if x == s.last() && !occurs(s.drop_last(), x) {
            }
        }
    }
}

/// `keep` drops nothing exactly when every element satisfies `p`.
pub proof fn lemma_keep_len<T>(s: Seq<T>, p: spec_fn(T) -> bool)
    ensures
        keep(s, p).len() <= s.len(),
        (keep(s, p).len() == s.len()) == (forall|i: int| 0 <= i < s.len() ==> p(#[trigger] s[i])),
    decreases s.len(),
{
    if s.len() > 0 {
        lemma_keep_len(s.drop_last(), p);
        if forall|i: int| 0 <= i < s.len() ==> p(#[trigger] s[i]) {
            assert forall|i: int| 0 <= i < s.drop_last().len() implies p(#[trigger] s.drop_last()[i]) by {
                assert(s.drop_last()[i] == s[i]);
            }
        }
        if forall|i: int| 0 <= i < s.drop_last().len() ==> p(#[trigger] s.drop_last()[i]) {
            if p(s.last()) {
                assert forall|i: int| 0 <= i < s.len() implies p(#[trigger] s[i]) by {
                    if i < s.len() - 1 {
                        assert(s.drop_last()[i] == s[i]);
                    }
                }
            }
        } else {
            let j = choose|j: int| 0 <= j < s.drop_last().len() && !p(#[trigger] s.drop_last()[j]);
            assert(s[j] == s.drop_last()[j]);
        }
    }
}

/// Appending an element does not move the first match when one exists.
pub proof fn lemma_first_index_push<T>(s: Seq<T>, x: T, p: spec_fn(T) -> bool)
    ensures
        first_index(s, p) is Some ==> first_index(s.push(x), p) == first_index(s, p),
        first_index(s, p) is None ==> first_index(s.push(x), p) == (if p(x) { Some(s.len() as int) } else { None::<int> }),
{
    lemma_first_index_facts(s, p);
    let t = s.push(x);
    if let Some(i) = first_index(s, p) {
        assert forall|j: int| 0 <= j < i implies !p(#[trigger] t[j]) by {
            assert(t[j] == s[j]);
        }
        assert(t[i] == s[i]);
        lemma_first_index_at(t, p, i);
    } else {
        assert forall|j: int| 0 <= j < s.len() implies !p(#[trigger] t[j]) by {
            assert(t[j] == s[j]);
        }
        if p(x) {
            lemma_first_index_at(t, p, s.len() as int);
        } else {
            lemma_first_index_none(t, p);
        }
    }
}

/// `f` maps each position of `t` to a position of `s` holding the same
/// element, strictly increasing.
pub open spec fn subseq_map<T>(s: Seq<T>, t: Seq<T>, f: spec_fn(int) -> int) -> bool {
    &&& forall|k: int| 0 <= k < t.len() ==> 0 <= #[trigger] f(k) < s.len() && t[k] == s[f(k)]
    &&& forall|a: int, b: int| 0 <= a < b < t.len() ==> #[trigger] f(a) < #[trigger] f(b)
}

/// What `keep` leaves is an order-preserving selection of its input.
pub proof fn lemma_keep_subseq<T>(s: Seq<T>, p: spec_fn(T) -> bool)
    ensures
        exists|f: spec_fn(int) -> int| #[trigger] subseq_map(s, keep(s, p), f),
    decreases s.len(),
{
    if s.len() == 0 {
        let f = |k: int| k;
        assert(subseq_map(s, keep(s, p), f));
    } else {
        lemma_keep_subseq(s.drop_last(), p);
        let g = choose|g: spec_fn(int) -> int| #[trigger] subseq_map(s.drop_last(), keep(s.drop_last(), p), g);
        let k0 = keep(s.drop_last(), p);
        if p(s.last()) {
            let f = |k: int| if k < k0.len() { g(k) } else { s.len() - 1 };
            assert forall|k: int| 0 <= k < keep(s, p).len() implies 0 <= #[trigger] f(k) < s.len() && keep(s, p)[k] == s[f(k)] by {
                if k < k0.len() {
                    assert(s.drop_last()[g(k)] == s[g(k)]);
                }
            }
            assert(subseq_map(s, keep(s, p), f));
        } else {
            assert forall|k: int| 0 <= k < keep(s, p).len() implies 0 <= #[trigger] g(k) < s.len() && keep(s, p)[k] == s[g(k)] by {
                assert(s.drop_last()[g(k)] == s[g(k)]);
            }
            assert(subseq_map(s, keep(s, p), g));
        }
    }
}

/// Whether some string in `s` reads `k`.
pub open spec fn names_contain(s: Seq<String>, k: Seq<char>) -> bool {
    exists|i: int| 0 <= i < s.len() && (#[trigger] s[i])@ == k
}

/// Whether `v` holds a string reading `k`.
pub fn vec_has_name(v: &Vec<String>, k: &str) -> (r: bool)
    ensures
        r == names_contain(v@, k@),
{
    let mut i: usize = 0;
    while i < v.len()
        invariant
            i <= v@.len(),
            forall|j: int| 0 <= j < i ==> (#[trigger] v@[j])@ != k@,
        decreases v@.len() - i,
    {
        if str_eq(v[i].as_str(), k) {
            return true;
        }
        i = i + 1;
    }
    false
}

/// Whether one of the first `i` strings of `s` reads `n`.
pub open spec fn name_in_prefix(s: Seq<String>, i: int, n: Seq<char>) -> bool {
    exists|j: int| 0 <= j < i && (#[trigger] s[j])@ == n
}

pub proof fn lemma_name_in_prefix_step(s: Seq<String>, i: int, n: Seq<char>)
    requires
        0 <= i < s.len(),
    ensures
        name_in_prefix(s, i + 1, n) == (name_in_prefix(s, i, n) || s[i]@ == n),
{
    if name_in_prefix(s, i + 1, n) && s[i]@ != n {
        let j = choose|j: int| 0 <= j < i + 1 && (#[trigger] s[j])@ == n;
        assert(j < i);
    }
}

/// Looking through the whole sequence is looking through all of it.
pub proof fn lemma_name_in_full_prefix(s: Seq<String>, n: Seq<char>)
    ensures
        name_in_prefix(s, s.len() as int, n) == names_contain(s, n),
{
    if names_contain(s, n) {
        let j = choose|j: int| 0 <= j < s.len() && (#[trigger] s[j])@ == n;
        assert(name_in_prefix(s, s.len() as int, n));
    }
    if name_in_prefix(s, s.len() as int, n) {
        let j = choose|j: int| 0 <= j < s.len() && (#[trigger] s[j])@ == n;
        assert(names_contain(s, n));
    }
}

/// Whether one of the first `i` entries of `s` has key `n`.
pub open spec fn key_in_prefix<V>(s: Seq<(String, V)>, i: int, n: Seq<char>) -> bool {
    exists|j: int| 0 <= j < i && (#[trigger] s[j]).0@ == n
}

pub proof fn lemma_key_in_prefix_step<V>(s: Seq<(String, V)>, i: int, n: Seq<char>)
    requires
        0 <= i < s.len(),
    ensures
        key_in_prefix(s, i + 1, n) == (key_in_prefix(s, i, n) || s[i].0@ == n),
{
    if key_in_prefix(s, i + 1, n) && s[i].0@ != n {
        let j = choose|j: int| 0 <= j < i + 1 && (#[trigger] s[j]).0@ == n;
        assert(j < i);
    }
}

pub proof fn lemma_names_push(before: Seq<String>, x: String, n: Seq<char>)
    ensures
        names_contain(before.push(x), n) == (names_contain(before, n) || x@ == n),
{
    let after = before.push(x);
    if names_contain(after, n) && x@ != n {
        let j = choose|j: int| 0 <= j < after.len() && (#[trigger] after[j])@ == n;
        assert(before[j] == after[j]);
    }
    if names_contain(before, n) {
        let j = choose|j: int| 0 <= j < before.len() && (#[trigger] before[j])@ == n;
        assert(after[j] == before[j]);
    }
    if x@ == n {
        assert(after[before.len() as int]@ == n);
    }
}

/// A set of names.
pub struct StrSet {
    items: Vec<String>,
}

impl View for StrSet {
    type V = Set<Seq<char>>;

    closed spec fn view(&self) -> Set<Seq<char>> {
        Set::new(|k: Seq<char>| names_contain(self.items@, k))
    }
}

impl Clone for StrSet {
    fn clone(&self) -> (r: Self)
        ensures
            r@ == self@,
    {
        StrSet { items: self.items.clone() }
    }
}

impl StrSet {
    /// The empty set.
    pub fn new() -> (r: Self)
        ensures
            r@ == Set::<Seq<char>>::empty(),
    {
        let r = StrSet { items: Vec::new() };
        assert(r@ =~= Set::<Seq<char>>::empty());
        r
    }

    pub fn contains(&self, k: &str) -> (r: bool)
        ensures
            r == self@.contains(k@),
    {
        vec_has_name(&self.items, k)
    }

    /// Every name in the set.
    pub fn names(&self) -> (r: Vec<String>)
        ensures
            forall|n: Seq<char>| names_contain(r@, n) <==> self@.contains(n),
    {
        let r = self.items.clone();
        assert(r@ =~= self.items@);
        r
    }

    /// Adds a name (no change when it is already there).
    pub fn insert(&mut self, k: String)
        ensures
            final(self)@ == old(self)@.insert(k@),
    {
        if !vec_has_name(&self.items, k.as_str()) {
            let ghost old_items = self.items@;
            self.items.push(k);
            assert forall|n: Seq<char>| names_contain(self.items@, n) == (names_contain(old_items, n) || n == k@) by {
                if names_contain(self.items@, n) && n != k@ {
                    let i = choose|i: int| 0 <= i < self.items@.len() && (#[trigger] self.items@[i])@ == n;
                    assert(old_items[i] == self.items@[i]);
                }
                if names_contain(old_items, n) {
                    let i = choose|i: int| 0 <= i < old_items.len() && (#[trigger] old_items[i])@ == n;
                    assert(self.items@[i] == old_items[i]);
                }
                if n == k@ {
                    assert(self.items@[old_items.len() as int]@ == n);
                }
            }
        }
        assert(self@ =~= old(self)@.insert(k@));
    }

    /// Drops a name (no change when it is absent).
    pub fn remove(&mut self, k: &str)
        ensures
            final(self)@ == old(self)@.remove(k@),
    {
        let mut kept: Vec<String> = Vec::new();
        let mut i: usize = 0;
        while i < self.items.len()
            invariant
                i <= self.items@.len(),
                self.items@ == old(self).items@,
                forall|n: Seq<char>| names_contain(kept@, n) <==> (n != k@ && name_in_prefix(self.items@, i as int, n)),
            decreases self.items@.len() - i,
        {
            let ghost before = kept@;
            if !str_eq(self.items[i].as_str(), k) {
                kept.push(self.items[i].clone());
            }
            proof {
                assert forall|n: Seq<char>| names_contain(kept@, n) <==> (n != k@ && name_in_prefix(self.items@, i + 1, n)) by {
                    lemma_name_in_prefix_step(self.items@, i as int, n);
                    if self.items@[i as int]@ != k@ {
                        lemma_names_push(before, self.items@[i as int], n);
                    }
                }
            }
            i = i + 1;
        }
        self.items = kept;
        assert forall|n: Seq<char>| self@.contains(n) == old(self)@.remove(k@).contains(n) by {
            if name_in_prefix(old(self).items@, old(self).items@.len() as int, n) {
                let j = choose|j: int| 0 <= j < old(self).items@.len() && (#[trigger] old(self).items@[j])@ == n;
                assert(names_contain(old(self).items@, n));
            }
            if names_contain(old(self).items@, n) {
                let j = choose|j: int| 0 <= j < old(self).items@.len() && (#[trigger] old(self).items@[j])@ == n;
                assert(name_in_prefix(old(self).items@, old(self).items@.len() as int, n));
            }
        }
        assert(self@ =~= old(self)@.remove(k@));
    }

    /// Some name of the set, when it is not empty.
    pub fn first(&self) -> (r: Option<&String>)
        ensures
            r is None <==> self@ =~= Set::<Seq<char>>::empty(),
            r matches Some(s) ==> self@.contains(s@),
    {
        if self.items.len() == 0 {
            assert(self@ =~= Set::<Seq<char>>::empty());
            None
        } else {
            assert(self@.contains(self.items@[0]@));
            Some(&self.items[0])
        }
    }
}

/// The value stored for `k` in a sequence of entries: the latest entry with
/// that key wins.
pub open spec fn lookup<V>(s: Seq<(String, V)>, k: Seq<char>) -> Option<V>
    decreases s.len(),
{
    if s.len() == 0 {
        None
    } else if s.last().0@ == k {
        Some(s.last().1)
    } else {
        lookup(s.drop_last(), k)
    }
}

/// The entries of `s` whose key is not `k`, in order.
pub open spec fn without<V>(s: Seq<(String, V)>, k: Seq<char>) -> Seq<(String, V)>
    decreases s.len(),
{
    if s.len() == 0 {
        s
    } else if s.last().0@ == k {
        without(s.drop_last(), k)
    } else {
        without(s.drop_last(), k).push(s.last())
    }
}

proof fn lemma_lookup_without<V>(s: Seq<(String, V)>, k: Seq<char>, n: Seq<char>)
    ensures
        lookup(without(s, k), n) == (if n == k { None } else { lookup(s, n) }),
    decreases s.len(),
{
    if s.len() > 0 {
        lemma_lookup_without(s.drop_last(), k, n);
        if s.last().0@ != k {
            let w = without(s.drop_last(), k);
            assert(w.push(s.last()).drop_last() =~= w);
        }
    }
}

proof fn lemma_lookup_push<V>(s: Seq<(String, V)>, e: (String, V), n: Seq<char>)
    ensures
        lookup(s.push(e), n) == (if e.0@ == n { Some(e.1) } else { lookup(s, n) }),
{
    assert(s.push(e).drop_last() =~= s);
}

proof fn lemma_lookup_some_has_entry<V>(s: Seq<(String, V)>, n: Seq<char>)
    requires
        lookup(s, n) is Some,
    ensures
        exists|i: int| 0 <= i < s.len() && (#[trigger] s[i]).0@ == n,
    decreases s.len(),
{
    if s.last().0@ != n {
        lemma_lookup_some_has_entry(s.drop_last(), n);
        let i = choose|i: int| 0 <= i < s.drop_last().len() && (#[trigger] s.drop_last()[i]).0@ == n;
        assert(s[i] == s.drop_last()[i]);
    } else {
        assert(s[s.len() - 1].0@ == n);
    }
}

proof fn lemma_entry_lookup_some<V>(s: Seq<(String, V)>, i: int)
    requires
        0 <= i < s.len(),
    ensures
        lookup(s, s[i].0@) is Some,
    decreases s.len(),
{
    if s.last().0@ != s[i].0@ {
        assert(i < s.len() - 1);
        assert(s.drop_last()[i] == s[i]);
        lemma_entry_lookup_some(s.drop_last(), i);
    }
}

/// A map from names to values.
pub struct StrMap<V> {
    entries: Vec<(String, V)>,
}

impl<V> View for StrMap<V> {
    type V = Map<Seq<char>, V>;

    closed spec fn view(&self) -> Map<Seq<char>, V> {
        Map::new(
            |k: Seq<char>| lookup(self.entries@, k) is Some,
            |k: Seq<char>| lookup(self.entries@, k)->0,
        )
    }
}

impl<V: Copy> Clone for StrMap<V> {
    fn clone(&self) -> (r: Self)
        ensures
            r@ == self@,
    {
        let mut entries: Vec<(String, V)> = Vec::new();
        let mut i: usize = 0;
        while i < self.entries.len()
            invariant
                i <= self.entries@.len(),
                entries@.len() == i,
                forall|j: int| 0 <= j < i ==> (#[trigger] entries@[j]).0@ == self.entries@[j].0@ && entries@[j].1 == self.entries@[j].1,
            decreases self.entries@.len() - i,
        {
            let k = self.entries[i].0.clone();
            let v = self.entries[i].1;
            entries.push((k, v));
            i = i + 1;
        }
        let r = StrMap { entries };
        proof {
            assert forall|n: Seq<char>| lookup(r.entries@, n) == lookup(self.entries@, n) by {
                lemma_lookup_same_keys(r.entries@, self.entries@, n);
            }
        }
        assert(r@ =~= self@);
        r
    }
}

proof fn lemma_lookup_same_keys<V>(a: Seq<(String, V)>, b: Seq<(String, V)>, n: Seq<char>)
    requires
        a.len() == b.len(),
        forall|j: int| 0 <= j < a.len() ==> (#[trigger] a[j]).0@ == b[j].0@ && a[j].1 == b[j].1,
    ensures
        lookup(a, n) == lookup(b, n),
    decreases a.len(),
{
    if a.len() > 0 {
        assert forall|j: int| 0 <= j < a.drop_last().len() implies (#[trigger] a.drop_last()[j]).0@ == b.drop_last()[j].0@
            && a.drop_last()[j].1 == b.drop_last()[j].1 by {
            assert(a.drop_last()[j] == a[j]);
            assert(b.drop_last()[j] == b[j]);
        }
        lemma_lookup_same_keys(a.drop_last(), b.drop_last(), n);
    }
}

impl<V> StrMap<V> {
    /// The empty map.
    pub fn new() -> (r: Self)
        ensures
            r@ == Map::<Seq<char>, V>::empty(),
    {
        let r = StrMap { entries: Vec::new() };
        assert(r@ =~= Map::<Seq<char>, V>::empty());
        r
    }

    /// The value stored under `k`.
    pub fn get(&self, k: &str) -> (r: Option<&V>)
        ensures
            r is Some <==> self@.contains_key(k@),
            r matches Some(v) ==> *v == self@[k@],
    {
        let mut found: Option<&V> = None;
        let mut i: usize = 0;
        while i < self.entries.len()
            invariant
                i <= self.entries@.len(),
                found matches Some(v) ==> lookup(self.entries@.take(i as int), k@) == Some(*v),
                found is None ==> lookup(self.entries@.take(i as int), k@) is None,
            decreases self.entries@.len() - i,
        {
            assert(self.entries@.take(i + 1).drop_last() =~= self.entries@.take(i as int));
            if str_eq(self.entries[i].0.as_str(), k) {
                found = Some(&self.entries[i].1);
            }
            i = i + 1;
        }
        assert(self.entries@.take(i as int) =~= self.entries@);
        found
    }

    pub fn contains_key(&self, k: &str) -> (r: bool)
        ensures
            r == self@.contains_key(k@),
    {
        self.get(k).is_some()
    }

    /// Stores `v` under `k`, replacing what was there.
    pub fn insert(&mut self, k: String, v: V)
        ensures
            final(self)@ == old(self)@.insert(k@, v),
    {
        let ghost kv = k@;
        self.drop_key(k.as_str());
        let ghost mid = self.entries@;
        self.entries.push((k, v));
        proof {
            assert forall|n: Seq<char>| lookup(self.entries@, n) == (if n == kv { Some(v) } else { lookup(old(self).entries@, n) }) by {
                lemma_lookup_push(mid, (k, v), n);
                lemma_lookup_without(old(self).entries@, kv, n);
            }
        }
        assert(self@ =~= old(self)@.insert(kv, v));
    }

    /// Drops the entry for `k` (no change when it is absent).
    pub fn remove(&mut self, k: &str)
        ensures
            final(self)@ == old(self)@.remove(k@),
    {
        self.drop_key(k);
        proof {
            assert forall|n: Seq<char>| lookup(self.entries@, n) == (if n == k@ { None } else { lookup(old(self).entries@, n) }) by {
                lemma_lookup_without(old(self).entries@, k@, n);
            }
        }
        assert(self@ =~= old(self)@.remove(k@));
    }

    fn drop_key(&mut self, k: &str)
        ensures
            final(self).entries@ == without(old(self).entries@, k@),
    {
        let mut old_entries: Vec<(String, V)> = Vec::new();
        std::mem::swap(&mut old_entries, &mut self.entries);
        let ghost src = old_entries@;
        let mut kept: Vec<(String, V)> = Vec::new();
        for e in iter: old_entries
            invariant
                iter.seq() == src,
                kept@ == without(src.take(iter.index() as int), k@),
        {
            assert(src.take(iter.index() + 1).drop_last() =~= src.take(iter.index() as int));
            if !str_eq(e.0.as_str(), k) {
                kept.push(e);
            }
        }
        assert(src.take(src.len() as int) =~= src);
        self.entries = kept;
    }

    /// Every key, each once, in storage order.
    pub fn keys(&self) -> (r: Vec<String>)
        ensures
            forall|n: Seq<char>| names_contain(r@, n) <==> self@.contains_key(n),
            forall|a: int, b: int| 0 <= a < b < r@.len() ==> (#[trigger] r@[a])@ != (#[trigger] r@[b])@,
    {
        let mut r: Vec<String> = Vec::new();
        let mut i: usize = 0;
        while i < self.entries.len()
            invariant
                i <= self.entries@.len(),
                forall|n: Seq<char>| names_contain(r@, n) <==> key_in_prefix(self.entries@, i as int, n),
                forall|a: int, b: int| 0 <= a < b < r@.len() ==> (#[trigger] r@[a])@ != (#[trigger] r@[b])@,
            decreases self.entries@.len() - i,
        {
            let key = &self.entries[i].0;
            let ghost before = r@;
            if !vec_has_name(&r, key.as_str()) {
                r.push(key.clone());
            }
            proof {
                assert forall|n: Seq<char>| names_contain(r@, n) <==> key_in_prefix(self.entries@, i + 1, n) by {
                    lemma_key_in_prefix_step(self.entries@, i as int, n);
                    if r@.len() > before.len() {
                        lemma_names_push(before, self.entries@[i as int].0, n);
                    }
                }
            }
            i = i + 1;
        }
        proof {
            assert forall|n: Seq<char>| names_contain(r@, n) <==> self@.contains_key(n) by {
                if names_contain(r@, n) {
                    let j = choose|j: int| 0 <= j < self.entries@.len() && (#[trigger] self.entries@[j]).0@ == n;
                    lemma_entry_lookup_some(self.entries@, j);
                }
                if self@.contains_key(n) {
                    lemma_lookup_some_has_entry(self.entries@, n);
                    let j = choose|j: int| 0 <= j < self.entries@.len() && (#[trigger] self.entries@[j]).0@ == n;
                    assert(key_in_prefix(self.entries@, self.entries@.len() as int, n));
                }
            }
        }
        r
    }
}

} // verus!
