//! A map from texts to values that keeps its entries in the order of their keys.

use vstd::prelude::*;

use crate::text::{is_before, same_text, text_before, text_order_irreflexive, text_order_total, text_order_transitive};

verus! {

/// Entries in ascending order of their keys, no key twice.
pub open spec fn ascending<V>(pairs: Seq<(Seq<char>, V)>) -> bool {
    forall|i: int, j: int|
        0 <= i < j < pairs.len() ==> text_before((#[trigger] pairs[i]).0, (#[trigger] pairs[j]).0)
}

/// `pairs` holds an entry for `key`.
pub open spec fn holds_key<V>(pairs: Seq<(Seq<char>, V)>, key: Seq<char>) -> bool {
    exists|i: int| 0 <= i < pairs.len() && (#[trigger] pairs[i]).0 == key
}

/// The place of the entry for `key`.
pub open spec fn place_of<V>(pairs: Seq<(Seq<char>, V)>, key: Seq<char>) -> int {
    choose|i: int| 0 <= i < pairs.len() && (#[trigger] pairs[i]).0 == key
}

/// The map that a sequence of entries stands for.
pub open spec fn map_of<V>(pairs: Seq<(Seq<char>, V)>) -> Map<Seq<char>, V> {
    Map::new(|key: Seq<char>| holds_key(pairs, key), |key: Seq<char>| pairs[place_of(pairs, key)].1)
}

/// In an ascending sequence a key has one place, and the map holds the value that stands there.
pub proof fn entry_is_unique<V>(pairs: Seq<(Seq<char>, V)>, i: int)
    requires
        ascending(pairs),
        0 <= i < pairs.len(),
    ensures
        map_of(pairs).dom().contains(pairs[i].0),
        map_of(pairs)[pairs[i].0] == pairs[i].1,
        place_of(pairs, pairs[i].0) == i,
{
    let key = pairs[i].0;
    assert(holds_key(pairs, key));
    let j = place_of(pairs, key);
    assert(0 <= j < pairs.len() && pairs[j].0 == key);
    text_order_irreflexive(key);
    if i < j {
        assert(text_before(pairs[i].0, pairs[j].0));
    } else if j < i {
        assert(text_before(pairs[j].0, pairs[i].0));
    }
}

/// The first entries of an ascending sequence are ascending.
pub proof fn prefix_is_ascending<V>(pairs: Seq<(Seq<char>, V)>, n: int)
    requires
        ascending(pairs),
        0 <= n <= pairs.len(),
    ensures
        ascending(pairs.take(n)),
{
    let front = pairs.take(n);
    assert forall|i: int, j: int| 0 <= i < j < front.len() implies text_before(
        (#[trigger] front[i]).0,
        (#[trigger] front[j]).0,
    ) by {
        assert(front[i] == pairs[i] && front[j] == pairs[j]);
    }
}

/// One more entry of an ascending sequence is one more entry of the map, under a new key.
pub proof fn map_grows<V>(pairs: Seq<(Seq<char>, V)>, n: int)
    requires
        ascending(pairs),
        0 <= n < pairs.len(),
    ensures
        map_of(pairs.take(n + 1)) == map_of(pairs.take(n)).insert(pairs[n].0, pairs[n].1),
        !map_of(pairs.take(n)).dom().contains(pairs[n].0),
{
    let before = pairs.take(n);
    let after = pairs.take(n + 1);
    let key = pairs[n].0;
    prefix_is_ascending(pairs, n);
    prefix_is_ascending(pairs, n + 1);
    if holds_key(before, key) {
        let p = place_of(before, key);
        assert(before[p].0 == key);
        assert(text_before(pairs[p].0, pairs[n].0));
        text_order_irreflexive(key);
    }
    assert(after[n] == pairs[n]);
    assert forall|k: Seq<char>| #[trigger] map_of(after).dom().contains(k) <==> map_of(before).insert(
        key,
        pairs[n].1,
    ).dom().contains(k) by {
        if holds_key(after, k) {
            let p = place_of(after, k);
            assert(after[p].0 == k);
            if p < n {
                assert(before[p].0 == k);
            }
        }
        if holds_key(before, k) {
            let p = place_of(before, k);
            assert(before[p].0 == k);
            assert(after[p].0 == k);
        }
        if k == key {
            assert(after[n].0 == k);
        }
    }
    assert forall|k: Seq<char>| #[trigger] map_of(after).dom().contains(k) implies map_of(after)[k]
        == map_of(before).insert(key, pairs[n].1)[k] by {
        let p = place_of(after, k);
        assert(after[p].0 == k);
        entry_is_unique(after, p);
        if p < n {
            assert(before[p] == after[p]);
            entry_is_unique(before, p);
            if k == key {
                assert(holds_key(before, key));
            }
        }
    }
    assert(map_of(after) =~= map_of(before).insert(key, pairs[n].1));
}

/// A map has as many keys as its ascending sequence has entries.
pub proof fn map_size<V>(pairs: Seq<(Seq<char>, V)>)
    requires
        ascending(pairs),
    ensures
        map_of(pairs).dom().finite(),
        map_of(pairs).dom().len() == pairs.len(),
    decreases pairs.len(),
{
    if pairs.len() == 0 {
        assert(map_of(pairs).dom() =~= Set::<Seq<char>>::empty());
    } else {
        let n = pairs.len() - 1;
        prefix_is_ascending(pairs, n);
        map_size(pairs.take(n));
        map_grows(pairs, n);
        assert(pairs.take(n + 1) =~= pairs);
        assert(map_of(pairs).dom() =~= map_of(pairs.take(n)).dom().insert(pairs[n].0));
    }
}

/// `key` comes before every other text of `keys`.
pub open spec fn is_least(keys: Set<Seq<char>>, key: Seq<char>) -> bool {
    keys.contains(key) && forall|other: Seq<char>| #[trigger]
        keys.contains(other) ==> other == key || text_before(key, other)
}

/// Texts in strictly ascending order.
pub open spec fn in_ascending_order(order: Seq<Seq<char>>) -> bool {
    forall|i: int, j: int|
        0 <= i < j < order.len() ==> text_before(#[trigger] order[i], #[trigger] order[j])
}

/// `order` lists the keys in ascending order.
pub open spec fn lists(order: Seq<Seq<char>>, keys: Set<Seq<char>>) -> bool {
    &&& in_ascending_order(order)
    &&& forall|key: Seq<char>| #[trigger] keys.contains(key) <==> order.contains(key)
}

/// The keys in ascending order.
pub open spec fn listed(keys: Set<Seq<char>>) -> Seq<Seq<char>> {
    choose|order: Seq<Seq<char>>| lists(order, keys)
}

/// There is one ascending order of a set of keys.
pub proof fn listing_is_unique(order: Seq<Seq<char>>, other: Seq<Seq<char>>, keys: Set<Seq<char>>)
    requires
        lists(order, keys),
        lists(other, keys),
    ensures
        order == other,
    decreases order.len(),
{
    if order.len() == 0 {
        if other.len() > 0 {
            assert(other.contains(other[0]));
            assert(keys.contains(other[0]));
            assert(order.contains(other[0]));
        }
        assert(order =~= other);
    } else {
        assert(order.contains(order[0]));
        assert(keys.contains(order[0]));
        assert(other.contains(order[0]));
        let p = choose|p: int| 0 <= p < other.len() && other[p] == order[0];
        assert(other.contains(other[0]));
        assert(keys.contains(other[0]));
        assert(order.contains(other[0]));
        let q = choose|q: int| 0 <= q < order.len() && order[q] == other[0];
        if p > 0 && q > 0 {
            assert(text_before(other[0], other[p]));
            assert(text_before(order[0], order[q]));
            text_order_transitive(order[0], other[0], order[0]);
            text_order_irreflexive(order[0]);
        }
        assert(order[0] == other[0]);
        let first = order[0];
        let a = order.drop_first();
        let b = other.drop_first();
        let less = keys.remove(first);
        rest_is_listed(order, keys);
        rest_is_listed(other, keys);
        listing_is_unique(a, b, less);
        assert(order =~= seq![first] + a);
        assert(other =~= seq![first] + b);
    }
}

proof fn rest_is_listed(order: Seq<Seq<char>>, keys: Set<Seq<char>>)
    requires
        lists(order, keys),
        order.len() > 0,
    ensures
        lists(order.drop_first(), keys.remove(order[0])),
{
    let a = order.drop_first();
    assert forall|i: int, j: int| 0 <= i < j < a.len() implies text_before(
        #[trigger] a[i],
        #[trigger] a[j],
    ) by {
        assert(a[i] == order[i + 1] && a[j] == order[j + 1]);
    }
    assert forall|key: Seq<char>| #[trigger] keys.remove(order[0]).contains(key) <==> a.contains(
        key,
    ) by {
        if keys.contains(key) && key != order[0] {
            assert(order.contains(key));
            let p = choose|p: int| 0 <= p < order.len() && order[p] == key;
            assert(a[p - 1] == key);
        }
        if a.contains(key) {
            let p = choose|p: int| 0 <= p < a.len() && a[p] == key;
            assert(order[p + 1] == key);
            assert(order.contains(key));
            assert(text_before(order[0], order[p + 1]));
            text_order_irreflexive(key);
        }
    }
}

/// A finite set of keys has one least key at most.
pub proof fn least_is_unique(keys: Set<Seq<char>>, a: Seq<char>, b: Seq<char>)
    requires
        is_least(keys, a),
        is_least(keys, b),
    ensures
        a == b,
{
    if a != b {
        text_order_transitive(a, b, a);
        text_order_irreflexive(a);
    }
}

/// The least key, where there is one.
pub open spec fn first_of(keys: Set<Seq<char>>) -> Option<Seq<char>> {
    if exists|key: Seq<char>| is_least(keys, key) {
        Some(choose|key: Seq<char>| is_least(keys, key))
    } else {
        None
    }
}

/// Every finite set of keys can be listed.
pub proof fn every_set_is_listed(keys: Set<Seq<char>>)
    requires
        keys.finite(),
    ensures
        lists(listed(keys), keys),
    decreases keys.len(),
{
    if keys.len() == 0 {
        assert(keys =~= Set::<Seq<char>>::empty());
        assert(lists(Seq::<Seq<char>>::empty(), keys));
    } else {
        let last = greatest(keys);
        let less = keys.remove(last);
        every_set_is_listed(less);
        let order = listed(less).push(last);
        assert forall|i: int, j: int| 0 <= i < j < order.len() implies text_before(
            #[trigger] order[i],
            #[trigger] order[j],
        ) by {
            assert(listed(less)[i] == order[i]);
            assert(listed(less).contains(order[i]));
            assert(less.contains(order[i]));
            if j < listed(less).len() {
                assert(listed(less)[j] == order[j]);
            }
        }
        assert forall|key: Seq<char>| #[trigger] keys.contains(key) <==> order.contains(key) by {
            if keys.contains(key) && key != last {
                assert(less.contains(key));
                assert(listed(less).contains(key));
                let p = choose|p: int| 0 <= p < listed(less).len() && listed(less)[p] == key;
                assert(order[p] == key);
            }
            assert(order[listed(less).len() as int] == last);
            if order.contains(key) {
                let p = choose|p: int| 0 <= p < order.len() && order[p] == key;
                if p < listed(less).len() {
                    assert(listed(less).contains(key));
                    assert(less.contains(key));
                }
            }
        }
        assert(lists(order, keys));
    }
}

/// The greatest of a set of keys that is not empty.
proof fn greatest(keys: Set<Seq<char>>) -> (r: Seq<char>)
    requires
        keys.finite(),
        keys.len() > 0,
    ensures
        keys.contains(r),
        forall|key: Seq<char>| #[trigger] keys.contains(key) && key != r ==> text_before(key, r),
    decreases keys.len(),
{
    let some = keys.choose();
    let less = keys.remove(some);
    if less.len() == 0 {
        assert forall|key: Seq<char>| #[trigger] keys.contains(key) implies key == some by {
            if key != some {
                assert(less.contains(key));
                assert(less =~= Set::<Seq<char>>::empty());
            }
        }
        some
    } else {
        let top = greatest(less);
        text_order_total(some, top);
        let r = if text_before(some, top) {
            top
        } else {
            some
        };
        assert forall|key: Seq<char>| #[trigger] keys.contains(key) && key != r implies text_before(
            key,
            r,
        ) by {
            if key != some {
                assert(less.contains(key));
                if key != top && r == some {
                    text_order_transitive(key, top, some);
                }
            }
        }
        r
    }
}

/// The keys of ascending entries.
pub open spec fn keys_of<V>(pairs: Seq<(Seq<char>, V)>) -> Seq<Seq<char>> {
    pairs.map_values(|e: (Seq<char>, V)| e.0)
}

/// The keys of ascending entries list the keys of their map.
pub proof fn keys_are_listed<V>(pairs: Seq<(Seq<char>, V)>)
    requires
        ascending(pairs),
    ensures
        lists(keys_of(pairs), map_of(pairs).dom()),
        listed(map_of(pairs).dom()) == keys_of(pairs),
{
    let order = keys_of(pairs);
    let keys = map_of(pairs).dom();
    assert forall|i: int, j: int| 0 <= i < j < order.len() implies text_before(
        #[trigger] order[i],
        #[trigger] order[j],
    ) by {
        assert(order[i] == pairs[i].0 && order[j] == pairs[j].0);
    }
    assert forall|key: Seq<char>| #[trigger] keys.contains(key) <==> order.contains(key) by {
        if keys.contains(key) {
            let p = place_of(pairs, key);
            assert(pairs[p].0 == key);
            assert(order[p] == key);
        }
        if order.contains(key) {
            let p = choose|p: int| 0 <= p < order.len() && order[p] == key;
            assert(pairs[p].0 == key);
        }
    }
    assert(lists(order, keys));
    listing_is_unique(order, listed(keys), keys);
}

/// A map from texts to values, walked in ascending order of its keys.
#[derive(Debug)]
pub struct TextMap<V> {
    entries: Vec<(String, V)>,
}

/// A set of texts, walked in ascending order.
pub type TextSet = TextMap<()>;

impl<V> View for TextMap<V> {
    type V = Map<Seq<char>, V>;

    open spec fn view(&self) -> Map<Seq<char>, V> {
        map_of(self.pairs())
    }
}

impl<V> TextMap<V> {
    /// The entries in the order in which they are walked.
    pub closed spec fn pairs(&self) -> Seq<(Seq<char>, V)> {
        self.entries@.map_values(|e: (String, V)| (e.0@, e.1))
    }

    #[verifier::type_invariant]
    spec fn in_order(&self) -> bool {
        ascending(self.pairs())
    }

    /// The map without entries.
    pub fn new() -> (r: Self)
        ensures
            r.pairs() == Seq::<(Seq<char>, V)>::empty(),
            r@ == Map::<Seq<char>, V>::empty(),
            ascending(r.pairs()),
    {
        let entries: Vec<(String, V)> = Vec::new();
        let r: TextMap<V> = TextMap { entries };
        proof {
            assert(r.pairs() =~= Seq::<(Seq<char>, V)>::empty());
            assert(r@ =~= Map::<Seq<char>, V>::empty());
        }
        r
    }

    /// The number of entries; the entries are in order.
    pub fn len(&self) -> (n: usize)
        ensures
            n == self.pairs().len(),
            ascending(self.pairs()),
    {
        proof {
            use_type_invariant(self);
        }
        self.entries.len()
    }

    /// Whether the map has no entries.
    pub fn is_empty(&self) -> (r: bool)
        ensures
            r == (self.pairs().len() == 0),
            r == (self@.dom() == Set::<Seq<char>>::empty()),
            ascending(self.pairs()),
    {
        proof {
            use_type_invariant(self);
            if self.pairs().len() > 0 {
                entry_is_unique(self.pairs(), 0);
                assert(self@.dom().contains(self.pairs()[0].0));
            } else {
                assert(self@.dom() =~= Set::<Seq<char>>::empty());
            }
        }
        self.entries.len() == 0
    }

    /// The key of the `i`-th entry.
    pub fn key_at(&self, i: usize) -> (r: &String)
        requires
            i < self.pairs().len(),
        ensures
            r@ == self.pairs()[i as int].0,
            self@.dom().contains(r@),
    {
        proof {
            use_type_invariant(self);
            entry_is_unique(self.pairs(), i as int);
        }
        &self.entries[i].0
    }

    /// The value of the `i`-th entry.
    pub fn value_at(&self, i: usize) -> (r: &V)
        requires
            i < self.pairs().len(),
        ensures
            *r == self.pairs()[i as int].1,
            self@[self.pairs()[i as int].0] == *r,
    {
        proof {
            use_type_invariant(self);
            entry_is_unique(self.pairs(), i as int);
        }
        &self.entries[i].1
    }

    /// The place where `key` stands, or the place where it belongs.
    fn search(&self, key: &str) -> (r: (bool, usize))
        ensures
            r.1 <= self.pairs().len(),
            r.0 ==> r.1 < self.pairs().len() && self.pairs()[r.1 as int].0 == key@,
            r.0 == self@.dom().contains(key@),
            !r.0 ==> forall|j: int|
                0 <= j < self.pairs().len() ==> if j < r.1 {
                    text_before((#[trigger] self.pairs()[j]).0, key@)
                } else {
                    text_before(key@, self.pairs()[j].0)
                },
    {
        proof {
            use_type_invariant(self);
        }
        let mut i: usize = 0;
        while i < self.entries.len() && is_before(self.entries[i].0.as_str(), key)
            invariant
                i <= self.entries.len(),
                self.pairs().len() == self.entries.len(),
                ascending(self.pairs()),
                forall|j: int| 0 <= j < i ==> text_before((#[trigger] self.pairs()[j]).0, key@),
            decreases self.entries.len() - i,
        {
            assert(text_before(self.pairs()[i as int].0, key@));
            i = i + 1;
        }
        if i < self.entries.len() && same_text(self.entries[i].0.as_str(), key) {
            proof {
                entry_is_unique(self.pairs(), i as int);
            }
            (true, i)
        } else {
            proof {
                assert forall|j: int| i <= j < self.pairs().len() implies text_before(
                    key@,
                    (#[trigger] self.pairs()[j]).0,
                ) by {
                    let at = self.pairs()[i as int].0;
                    text_order_total(at, key@);
                    if j > i {
                        text_order_transitive(key@, at, self.pairs()[j].0);
                    }
                }
                if self@.dom().contains(key@) {
                    let j = place_of(self.pairs(), key@);
                    text_order_irreflexive(key@);
                    assert(self.pairs()[j].0 == key@);
                }
            }
            (false, i)
        }
    }

    /// The keys, in ascending order.
    pub fn keys(&self) -> (r: Vec<String>)
        ensures
            ascending(self.pairs()),
            r@.len() == self.pairs().len(),
            forall|i: int| 0 <= i < r@.len() ==> (#[trigger] r@[i])@ == self.pairs()[i].0,
            r@.map_values(|s: String| s@) == listed(self@.dom()),
            forall|key: Seq<char>| #[trigger]
                self@.dom().contains(key) <==> exists|i: int|
                    0 <= i < r@.len() && (#[trigger] r@[i])@ == key,
    {
        proof {
            use_type_invariant(self);
        }
        let mut r: Vec<String> = Vec::new();
        let mut i: usize = 0;
        while i < self.entries.len()
            invariant
                i <= self.entries.len(),
                self.entries@.len() == self.pairs().len(),
                r@.len() == i,
                forall|j: int| 0 <= j < i ==> (#[trigger] r@[j])@ == self.pairs()[j].0,
            decreases self.entries.len() - i,
        {
            r.push(self.entries[i].0.clone());
            i = i + 1;
        }
        proof {
            let pairs = self.pairs();
            keys_are_listed(pairs);
            assert(r@.map_values(|s: String| s@) =~= keys_of(pairs));
            assert forall|key: Seq<char>| #[trigger] self@.dom().contains(key) <==> exists|j: int|
                0 <= j < r@.len() && (#[trigger] r@[j])@ == key by {
                if holds_key(pairs, key) {
                    let p = place_of(pairs, key);
                    assert(pairs[p].0 == key);
                    assert(r@[p]@ == key);
                }
                if exists|j: int| 0 <= j < r@.len() && (#[trigger] r@[j])@ == key {
                    let j = choose|j: int| 0 <= j < r@.len() && (#[trigger] r@[j])@ == key;
                    assert(pairs[j].0 == key);
                }
            }
        }
        r
    }

    /// The values in ascending order of their keys.
    pub fn values(&self) -> (r: Vec<&V>)
        ensures
            ascending(self.pairs()),
            r@.len() == self.pairs().len(),
            forall|i: int| 0 <= i < r@.len() ==> *(#[trigger] r@[i]) == self.pairs()[i].1,
    {
        proof {
            use_type_invariant(self);
        }
        let mut r: Vec<&V> = Vec::new();
        let mut i: usize = 0;
        while i < self.entries.len()
            invariant
                i <= self.entries.len(),
                self.entries@.len() == self.pairs().len(),
                r@.len() == i,
                forall|j: int| 0 <= j < i ==> *(#[trigger] r@[j]) == self.pairs()[j].1,
            decreases self.entries.len() - i,
        {
            r.push(&self.entries[i].1);
            i = i + 1;
        }
        r
    }

    /// A map with what `copy` makes of every value.
    pub fn copied<F: Fn(&V) -> V>(&self, copy: F) -> (r: Self)
        requires
            forall|v: &V| call_requires(copy, (v,)),
        ensures
            r@.dom() == self@.dom(),
            forall|key: Seq<char>| #[trigger]
                self@.dom().contains(key) ==> call_ensures(copy, (&self@[key],), r@[key]),
    {
        proof {
            use_type_invariant(self);
        }
        let ghost before = self.pairs();
        let mut entries: Vec<(String, V)> = Vec::new();
        let mut i: usize = 0;
        while i < self.entries.len()
            invariant
                i <= self.entries.len(),
                entries@.len() == i,
                before == self.pairs(),
                before.len() == self.entries.len(),
                forall|v: &V| call_requires(copy, (v,)),
                forall|j: int|
                    0 <= j < i ==> (#[trigger] entries@[j]).0@ == before[j].0 && call_ensures(
                        copy,
                        (&before[j].1,),
                        entries@[j].1,
                    ),
            decreases self.entries.len() - i,
        {
            let value: V = copy(&self.entries[i].1);
            entries.push((self.entries[i].0.clone(), value));
            i = i + 1;
        }
        let ghost after = entries@.map_values(|e: (String, V)| (e.0@, e.1));
        proof {
            assert forall|j: int| 0 <= j < after.len() implies (#[trigger] after[j]).0 == before[j].0
                && call_ensures(copy, (&before[j].1,), after[j].1) by {
                assert(entries@[j].0@ == before[j].0);
            }
            assert(ascending(after)) by {
                assert forall|a: int, b: int| 0 <= a < b < after.len() implies text_before(
                    (#[trigger] after[a]).0,
                    (#[trigger] after[b]).0,
                ) by {
                    assert(after[a].0 == before[a].0 && after[b].0 == before[b].0);
                }
            }
            assert forall|key: Seq<char>| #[trigger]
                map_of(before).dom().contains(key) <==> map_of(after).dom().contains(key) by {
                if holds_key(before, key) {
                    let p = place_of(before, key);
                    assert(before[p].0 == key);
                    assert(after[p].0 == key);
                }
                if holds_key(after, key) {
                    let p = place_of(after, key);
                    assert(after[p].0 == key);
                    assert(before[p].0 == key);
                }
            }
            assert(map_of(before).dom() =~= map_of(after).dom());
            assert forall|key: Seq<char>| #[trigger]
                map_of(before).dom().contains(key) implies call_ensures(
                copy,
                (&map_of(before)[key],),
                map_of(after)[key],
            ) by {
                let p = place_of(before, key);
                assert(before[p].0 == key);
                assert(after[p].0 == key);
                entry_is_unique(before, p);
                entry_is_unique(after, p);
            }
        }
        TextMap { entries }
    }

    /// Replaces every value by what `change` makes of it.
    pub fn change_values<F: Fn(V) -> V>(&mut self, change: F)
        requires
            forall|v: V| call_requires(change, (v,)),
        ensures
            final(self)@.dom() == old(self)@.dom(),
            forall|key: Seq<char>| #[trigger]
                old(self)@.dom().contains(key) ==> call_ensures(
                    change,
                    (old(self)@[key],),
                    final(self)@[key],
                ),
    {
        proof {
            use_type_invariant(&*self);
        }
        let ghost before = self.pairs();
        let mut left: Vec<(String, V)> = Vec::new();
        std::mem::swap(&mut left, &mut self.entries);
        let ghost all = left@;
        let mut done: Vec<(String, V)> = Vec::new();
        let n: usize = left.len();
        while done.len() < n
            invariant
                n == all.len(),
                done@.len() <= n,
                left@ == all.take(n - done@.len()),
                forall|v: V| call_requires(change, (v,)),
                forall|i: int|
                    0 <= i < done@.len() ==> (#[trigger] done@[i]).0 == all[n - done@.len() + i].0
                        && call_ensures(change, (all[n - done@.len() + i].1,), done@[i].1),
            decreases n - done.len(),
        {
            let ghost earlier = done@;
            let ghost at = n - done@.len() - 1;
            match left.pop() {
                Some((key, value)) => {
                    proof {
                        assert(left@ =~= all.take(at));
                    }
                    let changed: V = change(value);
                    done.insert(0, (key, changed));
                    proof {
                        assert forall|i: int| 0 <= i < done@.len() implies (#[trigger] done@[i]).0
                            == all[n - done@.len() + i].0 && call_ensures(
                            change,
                            (all[n - done@.len() + i].1,),
                            done@[i].1,
                        ) by {
                            if i > 0 {
                                assert(done@[i] == earlier[i - 1]);
                            }
                        }
                    }
                },
                None => {
                    return ;
                },
            }
        }
        let ghost after = done@.map_values(|e: (String, V)| (e.0@, e.1));
        proof {
            assert forall|i: int| 0 <= i < n implies (#[trigger] after[i]).0 == before[i].0
                && call_ensures(change, (before[i].1,), after[i].1) by {
                assert(done@[i].0 == all[i].0);
                assert(before[i] == (all[i].0@, all[i].1));
            }
            assert(ascending(after)) by {
                assert forall|a: int, b: int| 0 <= a < b < after.len() implies text_before(
                    (#[trigger] after[a]).0,
                    (#[trigger] after[b]).0,
                ) by {
                    assert(after[a].0 == before[a].0 && after[b].0 == before[b].0);
                }
            }
            assert forall|key: Seq<char>| #[trigger]
                map_of(before).dom().contains(key) <==> map_of(after).dom().contains(key) by {
                if holds_key(before, key) {
                    let p = place_of(before, key);
                    assert(before[p].0 == key);
                    assert(after[p].0 == key);
                }
                if holds_key(after, key) {
                    let p = place_of(after, key);
                    assert(after[p].0 == key);
                    assert(before[p].0 == key);
                }
            }
            assert(map_of(before).dom() =~= map_of(after).dom());
            assert forall|key: Seq<char>| #[trigger]
                map_of(before).dom().contains(key) implies call_ensures(
                change,
                (map_of(before)[key],),
                map_of(after)[key],
            ) by {
                let p = place_of(before, key);
                assert(before[p].0 == key);
                assert(after[p].0 == key);
                entry_is_unique(before, p);
                entry_is_unique(after, p);
            }
        }
        self.entries = done;
    }

    /// The first key in ascending order.
    pub fn first_key(&self) -> (r: Option<&String>)
        ensures
            match r {
                Some(key) => is_least(self@.dom(), key@) && first_of(self@.dom()) == Some(key@),
                None => self@.dom() == Set::<Seq<char>>::empty() && first_of(self@.dom()) is None,
            },
    {
        proof {
            use_type_invariant(self);
        }
        if self.entries.len() == 0 {
            proof {
                assert(self@.dom() =~= Set::<Seq<char>>::empty());
                assert(first_of(self@.dom()) is None);
            }
            None
        } else {
            proof {
                let pairs = self.pairs();
                entry_is_unique(pairs, 0);
                assert forall|key: Seq<char>| #[trigger] self@.dom().contains(key) implies key
                    == pairs[0].0 || text_before(pairs[0].0, key) by {
                    let p = place_of(pairs, key);
                    assert(pairs[p].0 == key);
                    if p > 0 {
                        assert(text_before(pairs[0].0, pairs[p].0));
                    }
                }
                assert(is_least(self@.dom(), pairs[0].0));
                let chosen = choose|key: Seq<char>| is_least(self@.dom(), key);
                least_is_unique(self@.dom(), chosen, pairs[0].0);
            }
            Some(&self.entries[0].0)
        }
    }

    /// Whether the map has an entry for `key`.
    pub fn contains_key(&self, key: &str) -> (r: bool)
        ensures
            r == self@.dom().contains(key@),
    {
        self.search(key).0
    }

    /// The value for `key`.
    pub fn get(&self, key: &str) -> (r: Option<&V>)
        ensures
            match r {
                Some(v) => self@.dom().contains(key@) && *v == self@[key@],
                None => !self@.dom().contains(key@),
            },
    {
        let (found, i) = self.search(key);
        if found {
            proof {
                use_type_invariant(self);
                entry_is_unique(self.pairs(), i as int);
            }
            Some(&self.entries[i].1)
        } else {
            None
        }
    }

    /// Sets the value for `key` and gives back the value it had.
    pub fn insert(&mut self, key: String, value: V) -> (r: Option<V>)
        ensures
            final(self)@ == old(self)@.insert(key@, value),
            ascending(final(self).pairs()),
            match r {
                Some(v) => old(self)@.dom().contains(key@) && v == old(self)@[key@],
                None => !old(self)@.dom().contains(key@),
            },
    {
        let (found, i) = self.search(key.as_str());
        proof {
            use_type_invariant(&*self);
        }
        let ghost before = self.pairs();
        let ghost name = key@;
        let mut entries: Vec<(String, V)> = Vec::new();
        std::mem::swap(&mut entries, &mut self.entries);
        if found {
            let previous: (String, V) = entries.remove(i);
            entries.insert(i, (key, value));
            let ghost after = entries@.map_values(|e: (String, V)| (e.0@, e.1));
            proof {
                assert(after =~= before.update(i as int, (name, value)));
                assert(ascending(after)) by {
                    assert forall|a: int, b: int| 0 <= a < b < after.len() implies text_before(
                        (#[trigger] after[a]).0,
                        (#[trigger] after[b]).0,
                    ) by {
                        assert(after[a].0 == before[a].0);
                        assert(after[b].0 == before[b].0);
                    }
                }
                entry_is_unique(before, i as int);
                assert(map_of(after) =~= map_of(before).insert(name, value)) by {
                    assert forall|k: Seq<char>| map_of(after).dom().contains(k) <==> map_of(
                        before,
                    ).insert(name, value).dom().contains(k) by {
                        if holds_key(after, k) {
                            let p = place_of(after, k);
                            assert(before[p].0 == k);
                        }
                        if holds_key(before, k) {
                            let p = place_of(before, k);
                            assert(after[p].0 == k);
                        }
                        if k == name {
                            assert(after[i as int].0 == k);
                        }
                    }
                    assert forall|k: Seq<char>| map_of(after).dom().contains(k) implies map_of(
                        after,
                    )[k] == map_of(before).insert(name, value)[k] by {
                        let p = place_of(after, k);
                        assert(after[p].0 == k);
                        entry_is_unique(after, p);
                        entry_is_unique(before, p);
                    }
                }
            }
            self.entries = entries;
            Some(previous.1)
        } else {
            entries.insert(i, (key, value));
            let ghost after = entries@.map_values(|e: (String, V)| (e.0@, e.1));
            proof {
                assert(after =~= before.insert(i as int, (name, value)));
                assert(ascending(after)) by {
                    assert forall|a: int, b: int| 0 <= a < b < after.len() implies text_before(
                        (#[trigger] after[a]).0,
                        (#[trigger] after[b]).0,
                    ) by {
                        let x = if a < i { a } else { a - 1 };
                        let y = if b < i { b } else { b - 1 };
                        if a != i {
                            assert(after[a] == before[x]);
                        }
                        if b != i {
                            assert(after[b] == before[y]);
                        }
                    }
                }
                assert(map_of(after) =~= map_of(before).insert(name, value)) by {
                    assert forall|k: Seq<char>| map_of(after).dom().contains(k) <==> map_of(
                        before,
                    ).insert(name, value).dom().contains(k) by {
                        if holds_key(after, k) {
                            let p = place_of(after, k);
                            assert(after[p].0 == k);
                            if p != i {
                                let q = if p < i { p } else { p - 1 };
                                assert(before[q].0 == k);
                            }
                        }
                        if holds_key(before, k) {
                            let p = place_of(before, k);
                            let q = if p < i { p } else { p + 1 };
                            assert(after[q].0 == k);
                        }
                        if k == name {
                            assert(after[i as int].0 == k);
                        }
                    }
                    assert forall|k: Seq<char>| map_of(after).dom().contains(k) implies map_of(
                        after,
                    )[k] == map_of(before).insert(name, value)[k] by {
                        let p = place_of(after, k);
                        assert(after[p].0 == k);
                        entry_is_unique(after, p);
                        entry_is_unique(after, i as int);
                        if p != i {
                            let q = if p < i { p } else { p - 1 };
                            assert(after[p] == before[q]);
                            entry_is_unique(before, q);
                        }
                    }
                }
            }
            self.entries = entries;
            None
        }
    }

    /// Takes the entry for `key` out and gives back its value.
    pub fn remove(&mut self, key: &str) -> (r: Option<V>)
        ensures
            final(self)@ == old(self)@.remove(key@),
            ascending(final(self).pairs()),
            match r {
                Some(v) => old(self)@.dom().contains(key@) && v == old(self)@[key@],
                None => !old(self)@.dom().contains(key@),
            },
    {
        let (found, i) = self.search(key);
        proof {
            use_type_invariant(&*self);
        }
        let ghost before = self.pairs();
        if found {
            let mut entries: Vec<(String, V)> = Vec::new();
            std::mem::swap(&mut entries, &mut self.entries);
            let previous: (String, V) = entries.remove(i);
            let ghost after = entries@.map_values(|e: (String, V)| (e.0@, e.1));
            proof {
                assert(after =~= before.remove(i as int));
                entry_is_unique(before, i as int);
                assert(ascending(after)) by {
                    assert forall|a: int, b: int| 0 <= a < b < after.len() implies text_before(
                        (#[trigger] after[a]).0,
                        (#[trigger] after[b]).0,
                    ) by {
                        let x = if a < i { a } else { a + 1 };
                        let y = if b < i { b } else { b + 1 };
                        assert(after[a] == before[x]);
                        assert(after[b] == before[y]);
                    }
                }
                assert(map_of(after) =~= map_of(before).remove(key@)) by {
                    assert forall|k: Seq<char>| map_of(after).dom().contains(k) <==> map_of(
                        before,
                    ).remove(key@).dom().contains(k) by {
                        if holds_key(after, k) {
                            let p = place_of(after, k);
                            let q = if p < i { p } else { p + 1 };
                            assert(after[p].0 == k);
                            assert(before[q].0 == k);
                            entry_is_unique(before, q);
                        }
                        if holds_key(before, k) && k != key@ {
                            let p = place_of(before, k);
                            let q = if p < i { p } else { p - 1 };
                            assert(before[p].0 == k);
                            assert(after[q].0 == k);
                        }
                    }
                    assert forall|k: Seq<char>| map_of(after).dom().contains(k) implies map_of(
                        after,
                    )[k] == map_of(before).remove(key@)[k] by {
                        let p = place_of(after, k);
                        let q = if p < i { p } else { p + 1 };
                        assert(after[p].0 == k);
                        assert(after[p] == before[q]);
                        entry_is_unique(after, p);
                        entry_is_unique(before, q);
                    }
                }
            }
            self.entries = entries;
            Some(previous.1)
        } else {
            proof {
                assert(self@.remove(key@) =~= self@);
            }
            None
        }
    }
}

} // verus!
