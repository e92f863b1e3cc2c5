//! An ordered map keyed by text.
use vstd::prelude::*;

use crate::text::chars_of;

verus! {

/// Lexicographic order of texts by their characters' code points.
pub open spec fn precedes(a: Seq<char>, b: Seq<char>) -> bool
    decreases a.len(),
{
    if b.len() == 0 {
        false
    } else if a.len() == 0 {
        true
    } else if a[0] == b[0] {
        precedes(a.drop_first(), b.drop_first())
    } else {
        a[0] < b[0]
    }
}

/// The order is irreflexive.
pub proof fn lemma_precedes_irreflexive(a: Seq<char>)
    ensures
        !precedes(a, a),
    decreases a.len(),
{
    if a.len() > 0 {
        lemma_precedes_irreflexive(a.drop_first());
    }
}

/// The order is transitive.
pub proof fn lemma_precedes_transitive(a: Seq<char>, b: Seq<char>, c: Seq<char>)
    requires
        precedes(a, b),
        precedes(b, c),
    ensures
        precedes(a, c),
    decreases a.len(),
{
    if a.len() > 0 && a[0] == b[0] && b[0] == c[0] {
        lemma_precedes_transitive(a.drop_first(), b.drop_first(), c.drop_first());
    }
}

/// Two different texts are ordered one way or the other.
pub proof fn lemma_precedes_total(a: Seq<char>, b: Seq<char>)
    ensures
        precedes(a, b) || a == b || precedes(b, a),
    decreases a.len(),
{
    if a.len() > 0 && b.len() > 0 && a[0] == b[0] {
        lemma_precedes_total(a.drop_first(), b.drop_first());
        if a.drop_first() == b.drop_first() {
            assert(a == seq![a[0]] + a.drop_first());
            assert(b == seq![b[0]] + b.drop_first());
        }
    } else if a.len() == 0 && b.len() == 0 {
        assert(a == b);
    }
}

/// Where one text stands relative to another.
#[derive(Debug, Clone, Copy, PartialEq, Eq, Structural)]
pub enum Place {
    /// Before the other text.
    Before,
    /// Equal to the other text.
    Here,
    /// After the other text.
    After,
}

/// Compares two texts by the code points of their characters.
pub fn place(a: &str, b: &str) -> (r: Place)
    ensures
        r is Before <==> precedes(a@, b@),
        r is Here <==> a@ == b@,
        r is After <==> precedes(b@, a@),
{
    let x = chars_of(a);
    let y = chars_of(b);
    let mut i: usize = 0;
    proof {
        assert(a@.skip(0) == a@);
        assert(b@.skip(0) == b@);
        lemma_precedes_irreflexive(a@);
    }
    while i < x.len() && i < y.len() && x[i] == y[i]
        invariant
            i <= x@.len(),
            i <= y@.len(),
            x@ == a@,
            y@ == b@,
            a@.take(i as int) == b@.take(i as int),
            precedes(a@, b@) == precedes(a@.skip(i as int), b@.skip(i as int)),
            precedes(b@, a@) == precedes(b@.skip(i as int), a@.skip(i as int)),
        decreases x@.len() - i,
    {
        proof {
            assert(a@.skip(i as int).drop_first() == a@.skip(i + 1));
            assert(b@.skip(i as int).drop_first() == b@.skip(i + 1));
            assert(a@.take(i + 1) == a@.take(i as int).push(a@[i as int]));
            assert(b@.take(i + 1) == b@.take(i as int).push(b@[i as int]));
        }
        i = i + 1;
    }
    proof {
        if i < x@.len() && i < y@.len() {
            assert(a@[i as int] != b@[i as int]);
        }
        if i == x@.len() && i == y@.len() {
            assert(a@ == a@.take(i as int));
            assert(b@ == b@.take(i as int));
            lemma_precedes_irreflexive(a@);
        }
    }
    if i < x.len() && i < y.len() {
        if x[i] < y[i] {
            Place::Before
        } else {
            Place::After
        }
    } else if i < y.len() {
        Place::Before
    } else if i < x.len() {
        Place::After
    } else {
        Place::Here
    }
}

/// Whether the keys of the pairs ascend strictly.
pub open spec fn ascending<T>(pairs: Seq<(Seq<char>, T)>) -> bool {
    forall|i: int, j: int|
        0 <= i < j < pairs.len() ==> precedes(#[trigger] pairs[i].0, #[trigger] pairs[j].0)
}

/// Whether some pair has the key.
pub open spec fn has_key<T>(pairs: Seq<(Seq<char>, T)>, key: Seq<char>) -> bool {
    exists|i: int| 0 <= i < pairs.len() && #[trigger] pairs[i].0 == key
}

/// The position of a pair with the key.
pub open spec fn key_index<T>(pairs: Seq<(Seq<char>, T)>, key: Seq<char>) -> int {
    choose|i: int| 0 <= i < pairs.len() && #[trigger] pairs[i].0 == key
}

/// The map that the pairs stand for.
pub open spec fn to_map<T>(pairs: Seq<(Seq<char>, T)>) -> Map<Seq<char>, T> {
    Map::new(|k: Seq<char>| has_key(pairs, k), |k: Seq<char>| pairs[key_index(pairs, k)].1)
}

/// A key stands at one position only.
pub proof fn lemma_key_index<T>(pairs: Seq<(Seq<char>, T)>, i: int)
    requires
        ascending(pairs),
        0 <= i < pairs.len(),
    ensures
        has_key(pairs, pairs[i].0),
        key_index(pairs, pairs[i].0) == i,
        to_map(pairs).dom().contains(pairs[i].0),
        to_map(pairs)[pairs[i].0] == pairs[i].1,
{
    let j = key_index(pairs, pairs[i].0);
    lemma_precedes_irreflexive(pairs[i].0);
    if i < j {
        assert(precedes(pairs[i].0, pairs[j].0));
    } else if j < i {
        assert(precedes(pairs[j].0, pairs[i].0));
    }
}

/// Putting a pair with a new or an existing key at its place inserts it into the map.
proof fn lemma_map_insert<T>(
    before: Seq<(Seq<char>, T)>,
    after: Seq<(Seq<char>, T)>,
    at: int,
    key: Seq<char>,
    value: T,
)
    requires
        ascending(before),
        ascending(after),
        0 <= at < after.len(),
        after[at] == (key, value),
        forall|i: int| 0 <= i < before.len() && #[trigger] before[i].0 != key ==> has_pair(after, before[i]),
        forall|i: int| 0 <= i < after.len() && i != at ==> has_pair(before, #[trigger] after[i]),
    ensures
        to_map(after) == to_map(before).insert(key, value),
{
    let m = to_map(before).insert(key, value);
    assert forall|k: Seq<char>| to_map(after).dom().contains(k) <==> m.dom().contains(k) by {
        if has_key(after, k) {
            let i = key_index(after, k);
            if i != at {
                let p = choose|j: int| 0 <= j < before.len() && #[trigger] before[j] == after[i];
                assert(before[p].0 == k);
            }
        }
        if has_key(before, k) && k != key {
            let i = key_index(before, k);
            assert(has_pair(after, before[i]));
            let p = choose|j: int| 0 <= j < after.len() && #[trigger] after[j] == before[i];
            assert(after[p].0 == k);
        }
        if k == key {
            assert(after[at].0 == k);
        }
    }
    assert forall|k: Seq<char>| to_map(after).dom().contains(k) implies to_map(after)[k] == m[k] by {
        if k == key {
            lemma_key_index(after, at);
        } else {
            let i = key_index(after, k);
            assert(i != at);
            assert(has_pair(before, after[i]));
            let p = choose|j: int| 0 <= j < before.len() && #[trigger] before[j] == after[i];
            lemma_key_index(before, p);
        }
    }
    assert(to_map(after) == m);
}

/// Whether the pair is one of the pairs.
pub open spec fn has_pair<T>(pairs: Seq<(Seq<char>, T)>, pair: (Seq<char>, T)) -> bool {
    exists|j: int| 0 <= j < pairs.len() && #[trigger] pairs[j] == pair
}

/// A map from text to values, kept in ascending order of the keys.
#[derive(Debug, PartialEq, Eq)]
pub struct TextMap<V: View> {
    entries: Vec<(String, V)>,
}

/// The entries with their texts and values taken by their views.
pub open spec fn entry_views<V: View>(entries: Seq<(String, V)>) -> Seq<(Seq<char>, V::V)> {
    Seq::new(entries.len(), |i: int| (entries[i].0@, entries[i].1@))
}

impl<V: View> View for TextMap<V> {
    type V = Map<Seq<char>, V::V>;

    open spec fn view(&self) -> Map<Seq<char>, V::V> {
        to_map(self.pairs())
    }
}

impl<V: View> TextMap<V> {
    /// The keys and values in ascending order of the keys.
    pub closed spec fn pairs(&self) -> Seq<(Seq<char>, V::V)> {
        entry_views(self.entries@)
    }

    #[verifier::type_invariant]
    spec fn sorted(self) -> bool {
        ascending(self.pairs())
    }

    /// An empty map.
    pub fn new() -> (r: Self)
        ensures
            r.pairs().len() == 0,
            r@ == Map::<Seq<char>, V::V>::empty(),
    {
        let r = TextMap { entries: Vec::new() };
        proof {
            assert(r@ == Map::<Seq<char>, V::V>::empty());
        }
        r
    }

    /// The number of entries.
    pub fn len(&self) -> (r: usize)
        ensures
            r == self.pairs().len(),
    {
        self.entries.len()
    }

    /// The entries stand in ascending order of their keys.
    pub fn order(&self)
        ensures
            ascending(self.pairs()),
            self.pairs() == listing(self@),
    {
        proof {
            use_type_invariant(self);
            lemma_listing(self.pairs());
        }
    }

    /// The key at a position in the ascending order.
    pub fn key_at(&self, i: usize) -> (r: &str)
        requires
            i < self.pairs().len(),
        ensures
            r@ == self.pairs()[i as int].0,
    {
        self.entries[i].0.as_str()
    }

    /// The value at a position in the ascending order.
    pub fn value_at(&self, i: usize) -> (r: &V)
        requires
            i < self.pairs().len(),
        ensures
            r@ == self.pairs()[i as int].1,
    {
        &self.entries[i].1
    }

    /// The position of the first key that does not precede `key`.
    fn seek(&self, key: &str) -> (r: (usize, bool))
        ensures
            r.0 <= self.pairs().len(),
            forall|i: int| 0 <= i < r.0 ==> precedes(#[trigger] self.pairs()[i].0, key@),
            forall|i: int|
                r.0 <= i < self.pairs().len() && (i > r.0 || !r.1) ==> precedes(
                    key@,
                    #[trigger] self.pairs()[i].0,
                ),
            r.1 ==> r.0 < self.pairs().len() && self.pairs()[r.0 as int].0 == key@,
            r.1 == has_key(self.pairs(), key@),
    {
        proof {
            use_type_invariant(self);
        }
        let ghost pairs = self.pairs();
        let mut i: usize = 0;
        while i < self.entries.len()
            invariant
                pairs == self.pairs(),
                pairs.len() == self.entries@.len(),
                ascending(pairs),
                i <= pairs.len(),
                forall|j: int| 0 <= j < i ==> precedes(#[trigger] pairs[j].0, key@),
            decreases pairs.len() - i,
        {
            assert(pairs[i as int].0 == self.entries@[i as int].0@);
            match place(self.entries[i].0.as_str(), key) {
                Place::Before => {
                    i = i + 1;
                },
                Place::Here => {
                    proof {
                        assert(pairs[i as int].0 == key@);
                    }
                    return (i, true);
                },
                Place::After => {
                    proof {
                        assert forall|j: int| i <= j < pairs.len() implies precedes(
                            key@,
                            #[trigger] pairs[j].0,
                        ) by {
                            if j > i {
                                lemma_precedes_transitive(key@, pairs[i as int].0, pairs[j].0);
                            }
                        }
                        lemma_precedes_irreflexive(key@);
                    }
                    return (i, false);
                },
            }
        }
        proof {
            lemma_precedes_irreflexive(key@);
        }
        (i, false)
    }

    /// The value stored for a key.
    pub fn get(&self, key: &str) -> (r: Option<&V>)
        ensures
            match r {
                Some(v) => self@.dom().contains(key@) && self@[key@] == v@,
                None => !self@.dom().contains(key@),
            },
    {
        proof {
            use_type_invariant(self);
        }
        let (i, found) = self.seek(key);
        if found {
            proof {
                lemma_key_index(self.pairs(), i as int);
            }
            Some(&self.entries[i].1)
        } else {
            None
        }
    }

    /// Stores a value for a key, in place of an earlier one for the same key.
    pub fn insert(&mut self, key: String, value: V)
        ensures
            final(self)@ == old(self)@.insert(key@, value@),
    {
        proof {
            use_type_invariant(&*self);
        }
        let (at, found) = self.seek(key.as_str());
        let ghost before = self.pairs();
        let mut entries: Vec<(String, V)> = Vec::new();
        std::mem::swap(&mut entries, &mut self.entries);
        let ghost k = key@;
        let ghost v = value@;
        if found {
            entries.set(at, (key, value));
            let ghost after = entry_views(entries@);
            proof {
                assert(after == before.update(at as int, (k, v)));
                assert forall|i: int| 0 <= i < before.len() && #[trigger] before[i].0 != k implies has_pair(
                    after,
                    before[i],
                ) by {
                    assert(after[i] == before[i]);
                }
                assert forall|i: int| 0 <= i < after.len() && i != at implies has_pair(
                    before,
                    #[trigger] after[i],
                ) by {
                    assert(before[i] == after[i]);
                }
                lemma_map_insert(before, after, at as int, k, v);
            }
        } else {
            entries.insert(at, (key, value));
            let ghost after = entry_views(entries@);
            proof {
                assert(after == before.insert(at as int, (k, v)));
                assert forall|i: int| 0 <= i < before.len() && #[trigger] before[i].0 != k implies has_pair(
                    after,
                    before[i],
                ) by {
                    if i < at {
                        assert(after[i] == before[i]);
                    } else {
                        assert(after[i + 1] == before[i]);
                    }
                }
                assert forall|i: int| 0 <= i < after.len() && i != at implies has_pair(
                    before,
                    #[trigger] after[i],
                ) by {
                    if i < at {
                        assert(before[i] == after[i]);
                    } else {
                        assert(before[i - 1] == after[i]);
                    }
                }
                lemma_map_insert(before, after, at as int, k, v);
            }
        }
        self.entries = entries;
    }
}

/// Two lists of pairs in ascending order that stand for the same map are the same list: the
/// contents of a map determine the order in which it is walked.
pub proof fn law_order_is_determined<T>(a: Seq<(Seq<char>, T)>, b: Seq<(Seq<char>, T)>)
    requires
        ascending(a),
        ascending(b),
        to_map(a) == to_map(b),
    ensures
        a == b,
{
    lemma_same_prefix(a, b, a.len() as int);
    lemma_same_prefix(b, a, b.len() as int);
    if a.len() < b.len() {
        lemma_key_index(b, a.len() as int);
        assert(b.take(b.len() as int)[a.len() as int] == b[a.len() as int]);
    } else if b.len() < a.len() {
        assert(a.take(a.len() as int)[b.len() as int] == a[b.len() as int]);
    }
    assert(a =~= b);
}

proof fn lemma_same_prefix<T>(a: Seq<(Seq<char>, T)>, b: Seq<(Seq<char>, T)>, n: int)
    requires
        ascending(a),
        ascending(b),
        to_map(a) == to_map(b),
        0 <= n <= a.len(),
    ensures
        n <= b.len(),
        forall|i: int| 0 <= i < n ==> a[i] == b[i],
    decreases n,
{
    if n > 0 {
        let i = n - 1;
        lemma_same_prefix(a, b, i);
        lemma_key_index(a, i);
        let j = key_index(b, a[i].0);
        assert(to_map(b).dom().contains(a[i].0));
        lemma_key_index(b, j);
        lemma_precedes_irreflexive(a[i].0);
        if j < i {
            assert(a[j] == b[j]);
            assert(precedes(a[j].0, a[i].0));
        } else if j > i {
            lemma_key_index(b, i);
            let k = key_index(a, b[i].0);
            assert(to_map(a).dom().contains(b[i].0));
            lemma_key_index(a, k);
            assert(precedes(b[i].0, b[j].0));
            if k < i {
                assert(a[k] == b[k]);
                assert(precedes(b[k].0, b[i].0));
                lemma_precedes_irreflexive(b[i].0);
            } else if k > i {
                assert(precedes(a[i].0, a[k].0));
                lemma_precedes_transitive(a[i].0, b[i].0, a[i].0);
            }
        }
    }
}

/// The entries of a map in ascending order of the keys.
pub open spec fn listing<T>(m: Map<Seq<char>, T>) -> Seq<(Seq<char>, T)> {
    choose|pairs: Seq<(Seq<char>, T)>| ascending(pairs) && to_map(pairs) == m
}

/// Pairs in ascending order are the listing of the map that they stand for.
pub proof fn lemma_listing<T>(pairs: Seq<(Seq<char>, T)>)
    requires
        ascending(pairs),
    ensures
        listing(to_map(pairs)) == pairs,
{
    law_order_is_determined(listing(to_map(pairs)), pairs);
}

/// Whether the entries of a map can be listed in ascending order of the keys.
pub open spec fn is_listed<T>(m: Map<Seq<char>, T>) -> bool {
    ascending(listing(m)) && to_map(listing(m)) == m
}

/// An empty map is listed.
pub proof fn lemma_empty_is_listed<T>()
    ensures
        is_listed(Map::<Seq<char>, T>::empty()),
        listing(Map::<Seq<char>, T>::empty()).len() == 0,
{
    let none = Seq::<(Seq<char>, T)>::empty();
    assert(to_map(none) =~= Map::<Seq<char>, T>::empty());
    lemma_listing(none);
}

/// The place of a key that none of the pairs has.
proof fn lemma_place<T>(pairs: Seq<(Seq<char>, T)>, key: Seq<char>) -> (at: int)
    requires
        ascending(pairs),
        !has_key(pairs, key),
    ensures
        0 <= at <= pairs.len(),
        forall|i: int| 0 <= i < at ==> precedes(#[trigger] pairs[i].0, key),
        forall|i: int| at <= i < pairs.len() ==> precedes(key, #[trigger] pairs[i].0),
    decreases pairs.len(),
{
    if pairs.len() == 0 {
        0
    } else {
        let last = pairs.last();
        let rest = pairs.drop_last();
        assert(pairs[pairs.len() - 1].0 != key);
        lemma_precedes_total(last.0, key);
        if precedes(last.0, key) {
            assert forall|i: int| 0 <= i < pairs.len() implies precedes(
                #[trigger] pairs[i].0,
                key,
            ) by {
                if i < pairs.len() - 1 {
                    lemma_precedes_transitive(pairs[i].0, last.0, key);
                }
            }
            pairs.len() as int
        } else {
            assert forall|i: int, j: int| 0 <= i < j < rest.len() implies precedes(
                #[trigger] rest[i].0,
                #[trigger] rest[j].0,
            ) by {
                assert(precedes(pairs[i].0, pairs[j].0));
            }
            assert(!has_key(rest, key)) by {
                if has_key(rest, key) {
                    assert(pairs[key_index(rest, key)].0 == key);
                }
            }
            let at = lemma_place(rest, key);
            assert forall|i: int| 0 <= i < at implies precedes(#[trigger] pairs[i].0, key) by {
                assert(pairs[i] == rest[i]);
            }
            assert forall|i: int| at <= i < pairs.len() implies precedes(
                key,
                #[trigger] pairs[i].0,
            ) by {
                if i < pairs.len() - 1 {
                    assert(pairs[i] == rest[i]);
                }
            }
            at
        }
    }
}

/// A map that is listed stays so with one more entry.
pub proof fn lemma_insert_is_listed<T>(m: Map<Seq<char>, T>, key: Seq<char>, value: T)
    requires
        is_listed(m),
        !m.dom().contains(key),
    ensures
        is_listed(m.insert(key, value)),
{
    let before = listing(m);
    assert(to_map(before).dom().contains(key) == has_key(before, key));
    let at = lemma_place(before, key);
    let after = before.insert(at, (key, value));
    assert(after[at] == (key, value));
    assert forall|i: int| 0 <= i < at implies #[trigger] after[i] == before[i] by {}
    assert forall|i: int| at < i < after.len() implies #[trigger] after[i] == before[i - 1] by {}
    assert forall|i: int, j: int| 0 <= i < j < after.len() implies precedes(
        #[trigger] after[i].0,
        #[trigger] after[j].0,
    ) by {
        if j < at {
            assert(precedes(before[i].0, before[j].0));
        } else if i > at {
            assert(precedes(before[i - 1].0, before[j - 1].0));
        } else if i < at && j > at {
            assert(precedes(before[i].0, before[j - 1].0));
        }
    }
    assert forall|i: int| 0 <= i < before.len() && #[trigger] before[i].0 != key implies has_pair(
        after,
        before[i],
    ) by {
        if i < at {
            assert(after[i] == before[i]);
        } else {
            assert(after[i + 1] == before[i]);
        }
    }
    assert forall|i: int| 0 <= i < after.len() && i != at implies has_pair(
        before,
        #[trigger] after[i],
    ) by {
        if i < at {
            assert(before[i] == after[i]);
        } else {
            assert(before[i - 1] == after[i]);
        }
    }
    lemma_map_insert(before, after, at, key, value);
    lemma_listing(after);
}

/// Maps with the same keys list them in the same order, whatever the values.
pub proof fn lemma_same_keys_listed<T>(a: Map<Seq<char>, T>, b: Map<Seq<char>, T>)
    requires
        is_listed(a),
        is_listed(b),
        a.dom() == b.dom(),
    ensures
        listing(a).len() == listing(b).len(),
        forall|i: int| 0 <= i < listing(a).len() ==> (#[trigger] listing(a)[i]).0 == listing(b)[i].0,
{
    let x = Seq::new(listing(a).len(), |i: int| (listing(a)[i].0, ()));
    let y = Seq::new(listing(b).len(), |i: int| (listing(b)[i].0, ()));
    lemma_keys_only(a, x);
    lemma_keys_only(b, y);
    assert(to_map(x) =~= to_map(y));
    law_order_is_determined(x, y);
    assert forall|i: int| 0 <= i < listing(a).len() implies (#[trigger] listing(a)[i]).0
        == listing(b)[i].0 by {
        assert(x[i] == y[i]);
    }
}

proof fn lemma_keys_only<T>(m: Map<Seq<char>, T>, keys: Seq<(Seq<char>, ())>)
    requires
        is_listed(m),
        keys == Seq::new(listing(m).len(), |i: int| (listing(m)[i].0, ())),
    ensures
        ascending(keys),
        to_map(keys).dom() == m.dom(),
{
    let pairs = listing(m);
    assert forall|i: int, j: int| 0 <= i < j < keys.len() implies precedes(
        #[trigger] keys[i].0,
        #[trigger] keys[j].0,
    ) by {
        assert(precedes(pairs[i].0, pairs[j].0));
    }
    assert forall|k: Seq<char>| has_key(keys, k) <==> has_key(pairs, k) by {
        if has_key(keys, k) {
            assert(pairs[key_index(keys, k)].0 == k);
        }
        if has_key(pairs, k) {
            assert(keys[key_index(pairs, k)].0 == k);
        }
    }
    assert(to_map(keys).dom() =~= to_map(pairs).dom());
}

/// A set of texts, kept in ascending order.
#[derive(Debug, PartialEq, Eq)]
pub struct TextSet {
    items: TextMap<()>,
}

impl View for TextSet {
    type V = Set<Seq<char>>;

    closed spec fn view(&self) -> Set<Seq<char>> {
        self.items@.dom()
    }
}

impl DeepView for TextSet {
    type V = Set<Seq<char>>;

    open spec fn deep_view(&self) -> Set<Seq<char>> {
        self@
    }
}

/// The texts of a list as a set.
pub open spec fn text_set(items: Seq<Seq<char>>) -> Set<Seq<char>> {
    Set::new(|k: Seq<char>| items.contains(k))
}

impl TextSet {
    /// An empty set.
    pub fn new() -> (r: Self)
        ensures
            r@ == Set::<Seq<char>>::empty(),
    {
        let r = TextSet { items: TextMap::new() };
        proof {
            assert(r@ =~= Set::<Seq<char>>::empty());
        }
        r
    }

    /// The set of the texts in a list.
    pub fn from_texts(items: Vec<String>) -> (r: Self)
        ensures
            r@ == text_set(items.deep_view()),
    {
        let mut out = TextSet::new();
        let mut i: usize = 0;
        let ghost all = items.deep_view();
        proof {
            assert(text_set(all.take(0)) =~= Set::<Seq<char>>::empty());
        }
        while i < items.len()
            invariant
                all == items.deep_view(),
                i <= items@.len(),
                out@ == text_set(all.take(i as int)),
            decreases items@.len() - i,
        {
            out.insert(items[i].as_str());
            proof {
                assert(all[i as int] == items@[i as int]@);
                assert(all.take(i + 1) == all.take(i as int).push(all[i as int]));
                let next = all.take(i + 1);
                let done = all.take(i as int);
                assert forall|k: Seq<char>| next.contains(k) <==> done.contains(k) || k
                    == all[i as int] by {
                    if done.contains(k) {
                        let j = choose|j: int| 0 <= j < done.len() && done[j] == k;
                        assert(next[j] == k);
                    }
                    assert(next[i as int] == all[i as int]);
                }
                assert(out@ =~= text_set(next));
            }
            i = i + 1;
        }
        proof {
            assert(all.take(i as int) == all);
        }
        out
    }

    /// Adds a text.
    pub fn insert(&mut self, item: &str)
        ensures
            final(self)@ == old(self)@.insert(item@),
    {
        let mut items: TextMap<()> = TextMap::new();
        std::mem::swap(&mut items, &mut self.items);
        items.insert(item.to_owned(), ());
        self.items = items;
    }

    /// Whether a text is in the set.
    pub fn contains(&self, item: &str) -> (r: bool)
        ensures
            r == self@.contains(item@),
    {
        match self.items.get(item) {
            Some(_) => true,
            None => false,
        }
    }

    /// The texts in ascending order.
    pub fn to_texts(&self) -> (r: Vec<String>)
        ensures
            text_set(r.deep_view()) == self@,
            forall|i: int, j: int|
                0 <= i < j < r@.len() ==> precedes(
                    #[trigger] r.deep_view()[i],
                    #[trigger] r.deep_view()[j],
                ),
    {
        self.items.order();
        let ghost pairs = self.items.pairs();
        let mut out: Vec<String> = Vec::new();
        let mut i: usize = 0;
        while i < self.items.len()
            invariant
                pairs == self.items.pairs(),
                i <= pairs.len(),
                out@.len() == i,
                forall|k: int| 0 <= k < i ==> (#[trigger] out.deep_view()[k]) == pairs[k].0,
            decreases pairs.len() - i,
        {
            let ghost before = out.deep_view();
            out.push(self.items.key_at(i).to_owned());
            proof {
                assert(out.deep_view() =~= before.push(pairs[i as int].0));
            }
            i = i + 1;
        }
        proof {
            let texts = out.deep_view();
            assert forall|k: Seq<char>| texts.contains(k) <==> self@.contains(k) by {
                if texts.contains(k) {
                    let j = choose|j: int| 0 <= j < texts.len() && texts[j] == k;
                    assert(pairs[j].0 == k);
                }
                if has_key(pairs, k) {
                    let j = key_index(pairs, k);
                    assert(texts[j] == k);
                }
            }
            assert(text_set(texts) =~= self@);
        }
        out
    }
}

impl Clone for TextSet {
    fn clone(&self) -> (r: Self)
        ensures
            r@ == self@,
    {
        let texts = self.to_texts();
        TextSet::from_texts(texts)
    }
}

impl Clone for TextMap<String> {
    fn clone(&self) -> (r: Self)
        ensures
            r.pairs() == self.pairs(),
    {
        proof {
            use_type_invariant(self);
        }
        let mut entries: Vec<(String, String)> = Vec::new();
        let mut i: usize = 0;
        while i < self.entries.len()
            invariant
                i <= self.entries@.len(),
                entry_views(entries@) == self.pairs().take(i as int),
            decreases self.entries@.len() - i,
        {
            let ghost done = entries@;
            entries.push((self.entries[i].0.clone(), self.entries[i].1.clone()));
            proof {
                assert(entry_views(entries@) == entry_views(done).push(self.pairs()[i as int]));
            }
            i = i + 1;
        }
        proof {
            assert(self.pairs().take(i as int) == self.pairs());
        }
        TextMap { entries }
    }
}

impl Clone for TextMap<bool> {
    fn clone(&self) -> (r: Self)
        ensures
            r.pairs() == self.pairs(),
    {
        proof {
            use_type_invariant(self);
        }
        let mut entries: Vec<(String, bool)> = Vec::new();
        let mut i: usize = 0;
        while i < self.entries.len()
            invariant
                i <= self.entries@.len(),
                entry_views(entries@) == self.pairs().take(i as int),
            decreases self.entries@.len() - i,
        {
            let ghost done = entries@;
            entries.push((self.entries[i].0.clone(), self.entries[i].1));
            proof {
                assert(entry_views(entries@) == entry_views(done).push(self.pairs()[i as int]));
            }
            i = i + 1;
        }
        proof {
            assert(self.pairs().take(i as int) == self.pairs());
        }
        TextMap { entries }
    }
}

} // verus!
