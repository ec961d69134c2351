//! A map from variable names to values, held as a list in ascending order of
//! name. It is read as a mathematical map (`@`) and, where order matters, as
//! its sorted listing.

use crate::name_order::{
    compare_names, lemma_name_before_irreflexive, lemma_name_before_transitive,
    lemma_name_before_trichotomy, name_before, NameOrder,
};
use vstd::prelude::*;

verus! {

/// The names of `s` are in strictly ascending order, so none occurs twice.
pub open spec fn sorted_listing<X>(s: Seq<(Seq<char>, X)>) -> bool {
    forall|i: int, j: int|
        #![trigger s[i], s[j]]
        0 <= i < j < s.len() ==> name_before(s[i].0, s[j].0)
}

/// Some entry of `s` carries `name`.
pub open spec fn listed<X>(s: Seq<(Seq<char>, X)>, name: Seq<char>) -> bool {
    exists|i: int| 0 <= i < s.len() && (#[trigger] s[i]).0 == name
}

/// One of the first `end` entries of `s` carries `name`.
pub open spec fn listed_below<X>(s: Seq<(Seq<char>, X)>, end: int, name: Seq<char>) -> bool {
    exists|i: int| 0 <= i < end && i < s.len() && (#[trigger] s[i]).0 == name
}

/// The index of an entry of `s` that carries `name`.
pub open spec fn index_of<X>(s: Seq<(Seq<char>, X)>, name: Seq<char>) -> int {
    choose|i: int| 0 <= i < s.len() && (#[trigger] s[i]).0 == name
}

/// The map that a listing stands for.
pub open spec fn listing_map<X>(s: Seq<(Seq<char>, X)>) -> Map<Seq<char>, X> {
    Map::new(|name: Seq<char>| listed(s, name), |name: Seq<char>| s[index_of(s, name)].1)
}

/// Taking one more entry into account adds that entry's name, and no other.
pub proof fn lemma_listed_below_step<X>(s: Seq<(Seq<char>, X)>, end: int)
    requires
        0 <= end < s.len(),
    ensures
        forall|name: Seq<char>|
            #![trigger listed_below(s, end + 1, name)]
            #![trigger listed_below(s, end, name)]
            listed_below(s, end + 1, name) <==> listed_below(s, end, name) || name == s[end].0,
{
    assert(listed_below(s, end + 1, s[end].0));
}

/// None of no entries carries a name, and all entries together carry the
/// names that are listed.
pub proof fn lemma_listed_below_ends<X>(s: Seq<(Seq<char>, X)>)
    ensures
        forall|name: Seq<char>| !#[trigger] listed_below(s, 0, name),
        forall|name: Seq<char>|
            #![trigger listed_below(s, s.len() as int, name)]
            #![trigger listed(s, name)]
            listed_below(s, s.len() as int, name) <==> listed(s, name),
{
}

/// In a sorted listing each entry is the one its name is mapped to.
pub proof fn lemma_listing_map_at<X>(s: Seq<(Seq<char>, X)>, i: int)
    requires
        sorted_listing(s),
        0 <= i < s.len(),
    ensures
        listing_map(s).contains_key(s[i].0),
        listing_map(s)[s[i].0] == s[i].1,
        index_of(s, s[i].0) == i,
{
    // Another entry with the same name would stand before or after this one,
    // and so would its name.
    lemma_name_before_irreflexive(s[i].0);
}

/// A sorted listing has as many entries as its map has names.
pub proof fn lemma_listing_map_len<X>(s: Seq<(Seq<char>, X)>)
    requires
        sorted_listing(s),
    ensures
        listing_map(s).dom().finite(),
        listing_map(s).len() == s.len(),
{
    let names = Seq::new(s.len(), |i: int| s[i].0);
    assert forall|i: int, j: int|
        0 <= i < names.len() && 0 <= j < names.len() && i != j implies names[i] != names[j] by {
        lemma_listing_map_at(s, i);
        lemma_listing_map_at(s, j);
    }
    names.unique_seq_to_set();
    assert forall|name: Seq<char>| listed(s, name) implies names.to_set().contains(name) by {
        assert(names[index_of(s, name)] == name);
    }
    assert(listing_map(s).dom() =~= names.to_set());
}

/// Putting a new name at its place keeps a listing sorted and adds the entry
/// to its map.
pub proof fn lemma_listing_insert<X>(s: Seq<(Seq<char>, X)>, at: int, name: Seq<char>, value: X)
    requires
        sorted_listing(s),
        0 <= at <= s.len(),
        forall|i: int| 0 <= i < at ==> name_before((#[trigger] s[i]).0, name),
        forall|i: int| at <= i < s.len() ==> name_before(name, (#[trigger] s[i]).0),
    ensures
        sorted_listing(s.insert(at, (name, value))),
        listing_map(s.insert(at, (name, value))) == listing_map(s).insert(name, value),
{
    let t = s.insert(at, (name, value));
    assert forall|i: int, j: int| 0 <= i < j < t.len() implies name_before(t[i].0, t[j].0) by {
        if i < at < j {
            lemma_name_before_transitive(s[i].0, name, s[j - 1].0);
        }
    }
    let m = listing_map(s).insert(name, value);
    assert forall|k: Seq<char>| m.contains_key(k) implies listed(t, k) by {
        if k == name {
            assert(t[at].0 == k);
        } else {
            let i = index_of(s, k);
            if i < at {
                assert(t[i].0 == k);
            } else {
                assert(t[i + 1].0 == k);
            }
        }
    }
    assert forall|k: Seq<char>| listed(t, k) implies m.contains_key(k) && listing_map(t)[k]
        == m[k] by {
        let i = index_of(t, k);
        lemma_listing_map_at(t, i);
        lemma_listing_map_at(t, at);
        if i < at {
            lemma_listing_map_at(s, i);
        } else if i > at {
            lemma_listing_map_at(s, i - 1);
        }
    }
}

/// Giving a listed name a new value keeps a listing sorted and updates its map.
pub proof fn lemma_listing_replace<X>(s: Seq<(Seq<char>, X)>, at: int, value: X)
    requires
        sorted_listing(s),
        0 <= at < s.len(),
    ensures
        sorted_listing(s.update(at, (s[at].0, value))),
        listing_map(s.update(at, (s[at].0, value))) == listing_map(s).insert(s[at].0, value),
{
    let name = s[at].0;
    let t = s.update(at, (name, value));
    assert(sorted_listing(t));
    let m = listing_map(s).insert(name, value);
    assert forall|k: Seq<char>| m.contains_key(k) implies listed(t, k) by {
        if k == name {
            assert(t[at].0 == k);
        } else {
            assert(t[index_of(s, k)].0 == k);
        }
    }
    assert forall|k: Seq<char>| listed(t, k) implies m.contains_key(k) && listing_map(t)[k]
        == m[k] by {
        let i = index_of(t, k);
        lemma_listing_map_at(t, i);
        lemma_listing_map_at(s, i);
        lemma_listing_map_at(s, at);
    }
}

/// Without its last entry a sorted listing is still sorted, and its map has
/// lost that entry's name and no other.
pub proof fn lemma_listing_drop_last<X>(s: Seq<(Seq<char>, X)>)
    requires
        sorted_listing(s),
        s.len() > 0,
    ensures
        sorted_listing(s.drop_last()),
        listing_map(s.drop_last()) == listing_map(s).remove(s.last().0),
{
    let t = s.drop_last();
    let last = s.len() - 1;
    lemma_listing_map_at(s, last);
    assert(sorted_listing(t));
    let m = listing_map(s).remove(s.last().0);
    assert forall|k: Seq<char>| m.contains_key(k) implies listed(t, k) by {
        assert(t[index_of(s, k)].0 == k);
    }
    assert forall|k: Seq<char>| listed(t, k) implies m.contains_key(k) && listing_map(t)[k]
        == m[k] by {
        let i = index_of(t, k);
        lemma_listing_map_at(t, i);
        lemma_listing_map_at(s, i);
    }
}

/// A map has one sorted listing only: the order of the entries is fixed by
/// their names.
pub proof fn lemma_sorted_listing_unique<X>(s: Seq<(Seq<char>, X)>, t: Seq<(Seq<char>, X)>)
    requires
        sorted_listing(s),
        sorted_listing(t),
        listing_map(s) == listing_map(t),
    ensures
        s == t,
    decreases s.len(),
{
    lemma_listing_map_len(s);
    lemma_listing_map_len(t);
    if s.len() > 0 {
        let last = s.len() - 1;
        let a = s[last].0;
        let b = t[last].0;
        lemma_listing_map_at(s, last);
        lemma_listing_map_at(t, last);
        // Both listings end with the greatest name of the map.
        assert(a == b) by {
            lemma_name_before_trichotomy(a, b);
            if index_of(t, a) < last {
                assert(name_before(t[index_of(t, a)].0, b));
            }
            if index_of(s, b) < last {
                assert(name_before(s[index_of(s, b)].0, a));
            }
        }
        lemma_listing_drop_last(s);
        lemma_listing_drop_last(t);
        lemma_sorted_listing_unique(s.drop_last(), t.drop_last());
        assert(s =~= s.drop_last().push(s[last]));
        assert(t =~= t.drop_last().push(t[last]));
    }
}

/// A map keyed by variable name.
#[derive(Debug, PartialEq, Eq)]
pub struct VarMap<V: DeepView> {
    entries: Vec<(String, V)>,
}

/// What a list of entries says: the text of each name, and what each value
/// stands for.
spec fn listing_of<V: DeepView>(entries: Seq<(String, V)>) -> Seq<(Seq<char>, V::V)> {
    Seq::new(entries.len(), |i: int| (entries[i].0@, entries[i].1.deep_view()))
}

impl<V: DeepView> VarMap<V> {
    #[verifier::type_invariant]
    spec fn ordered(&self) -> bool {
        sorted_listing(listing_of(self.entries@))
    }

    /// The entries in ascending order of name.
    pub closed spec fn listing(&self) -> Seq<(Seq<char>, V::V)> {
        listing_of(self.entries@)
    }

    /// An empty map.
    pub fn new() -> (map: Self)
        ensures
            map@ == Map::<Seq<char>, V::V>::empty(),
            map.listing().len() == 0,
    {
        VarMap { entries: Vec::new() }
    }

    /// The number of names.
    pub fn len(&self) -> (n: usize)
        ensures
            n == self.listing().len(),
            n == self@.len(),
            sorted_listing(self.listing()),
    {
        proof {
            use_type_invariant(self);
            lemma_listing_map_len(self.listing());
        }
        self.entries.len()
    }

    /// Whether the map holds no name.
    pub fn is_empty(&self) -> (empty: bool)
        ensures
            empty == (self@ == Map::<Seq<char>, V::V>::empty()),
            empty == (self.listing().len() == 0),
    {
        proof {
            if self.entries@.len() > 0 {
                assert(self.listing()[0].0 == self.entries@[0].0@);
                assert(self@.contains_key(self.entries@[0].0@));
            } else {
                assert(self@ =~= Map::<Seq<char>, V::V>::empty());
            }
        }
        self.entries.len() == 0
    }

    /// The entry at place `i` of the sorted listing.
    pub fn entry(&self, i: usize) -> (e: (&String, &V))
        requires
            i < self.listing().len(),
        ensures
            (e.0@, e.1.deep_view()) == self.listing()[i as int],
            self@.contains_key(e.0@),
            self@[e.0@] == e.1.deep_view(),
    {
        proof {
            use_type_invariant(self);
            lemma_listing_map_at(self.listing(), i as int);
        }
        let e = &self.entries[i];
        (&e.0, &e.1)
    }

    /// The place of `name` in the listing if it is there, else the place where
    /// it would go.
    fn position(&self, name: &str) -> (r: (usize, bool))
        ensures
            r.0 <= self.listing().len(),
            sorted_listing(self.listing()),
            forall|i: int| 0 <= i < r.0 ==> name_before((#[trigger] self.listing()[i]).0, name@),
            forall|i: int|
                r.0 + (if r.1 { 1int } else { 0int }) <= i < self.listing().len() ==> name_before(
                    name@,
                    (#[trigger] self.listing()[i]).0,
                ),
            r.1 ==> r.0 < self.listing().len() && self.listing()[r.0 as int].0 == name@,
            r.1 == self@.contains_key(name@),
    {
        proof {
            use_type_invariant(self);
        }
        let ghost s = self.listing();
        let mut lo: usize = 0;
        let mut hi: usize = self.entries.len();
        while lo < hi
            invariant
                lo <= hi <= s.len(),
                s == self.listing(),
                s.len() == self.entries@.len(),
                sorted_listing(s),
                forall|i: int| 0 <= i < lo ==> name_before((#[trigger] s[i]).0, name@),
                forall|i: int| hi <= i < s.len() ==> name_before(name@, (#[trigger] s[i]).0),
            decreases hi - lo,
        {
            let mid = lo + (hi - lo) / 2;
            let probe = &self.entries[mid];
            match compare_names(probe.0.as_str(), name) {
                NameOrder::Before => {
                    proof {
                        assert forall|i: int| 0 <= i < mid + 1 implies name_before(
                            (#[trigger] s[i]).0,
                            name@,
                        ) by {
                            if i < mid {
                                lemma_name_before_transitive(s[i].0, s[mid as int].0, name@);
                            }
                        }
                    }
                    lo = mid + 1;
                },
                NameOrder::Same => {
                    proof {
                        assert forall|i: int| mid + 1 <= i < s.len() implies name_before(
                            name@,
                            (#[trigger] s[i]).0,
                        ) by {
                            assert(name_before(s[mid as int].0, s[i].0));
                        }
                        assert forall|i: int| 0 <= i < mid implies name_before(
                            (#[trigger] s[i]).0,
                            name@,
                        ) by {
                            assert(name_before(s[i].0, s[mid as int].0));
                        }
                        lemma_listing_map_at(s, mid as int);
                    }
                    return (mid, true);
                },
                NameOrder::After => {
                    proof {
                        assert forall|i: int| mid <= i < s.len() implies name_before(
                            name@,
                            (#[trigger] s[i]).0,
                        ) by {
                            if mid < i {
                                lemma_name_before_transitive(name@, s[mid as int].0, s[i].0);
                            }
                        }
                    }
                    hi = mid;
                },
            }
        }
        proof {
            // Each entry is before or after `name`, so none carries it.
            lemma_name_before_irreflexive(name@);
        }
        (lo, false)
    }

    /// Whether `name` is in the map.
    pub fn contains_key(&self, name: &str) -> (present: bool)
        ensures
            present == self@.contains_key(name@),
    {
        self.position(name).1
    }

    /// The value of `name`, if it has one.
    pub fn get(&self, name: &str) -> (value: Option<&V>)
        ensures
            value is Some == self@.contains_key(name@),
            value matches Some(v) ==> v.deep_view() == self@[name@],
    {
        let (at, found) = self.position(name);
        if found {
            proof {
                lemma_listing_map_at(self.listing(), at as int);
            }
            Some(&self.entries[at].1)
        } else {
            None
        }
    }

    /// Maps `name` to `value` and returns the value that `name` had before, if
    /// it had one.
    pub fn insert(&mut self, name: String, value: V) -> (previous: Option<V>)
        ensures
            final(self)@ == old(self)@.insert(name@, value.deep_view()),
            previous is Some == old(self)@.contains_key(name@),
            previous matches Some(p) ==> p.deep_view() == old(self)@[name@],
    {
        let (at, found) = self.position(name.as_str());
        let ghost before = self.listing();
        let ghost entry = (name@, value.deep_view());
        // The entries are taken out for the change and put back in order.
        let mut entries: Vec<(String, V)> = Vec::new();
        std::mem::swap(&mut entries, &mut self.entries);
        let previous = if found {
            let replaced = entries.remove(at);
            entries.insert(at, (name, value));
            proof {
                lemma_listing_map_at(before, at as int);
                lemma_listing_replace(before, at as int, entry.1);
                assert(listing_of(entries@) =~= before.update(at as int, entry));
            }
            Some(replaced.1)
        } else {
            entries.insert(at, (name, value));
            proof {
                lemma_listing_insert(before, at as int, entry.0, entry.1);
                assert(listing_of(entries@) =~= before.insert(at as int, entry));
            }
            None
        };
        self.entries = entries;
        previous
    }
}

impl<V: DeepView> View for VarMap<V> {
    type V = Map<Seq<char>, V::V>;

    /// The map that the entries stand for.
    open spec fn view(&self) -> Map<Seq<char>, V::V> {
        listing_map(self.listing())
    }
}

} // verus!
