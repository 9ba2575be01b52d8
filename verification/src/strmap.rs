//! Maps and sets keyed by strings, kept in ascending key order.

use vstd::prelude::*;
use vstd::string::*;

use crate::text;
use crate::text::{lemma_lex_irreflexive, lemma_lex_total, lemma_lex_transitive, lex_lt};

verus! {

/// Strictly ascending, hence without repetition.
pub open spec fn ascending(keys: Seq<Seq<char>>) -> bool {
    forall|i: int, j: int| 0 <= i < j < keys.len() ==> lex_lt(#[trigger] keys[i], #[trigger] keys[j])
}

/// The elements of a finite set in ascending order.
pub open spec fn in_order(s: Set<Seq<char>>) -> Seq<Seq<char>> {
    choose|q: Seq<Seq<char>>| ascending(q) && q.to_set() == s
}

proof fn lemma_ascending_unique(p: Seq<Seq<char>>, q: Seq<Seq<char>>)
    requires
        ascending(p),
        ascending(q),
        p.to_set() == q.to_set(),
    ensures
        p == q,
    decreases p.len(),
{
    if p.len() == 0 {
        if q.len() > 0 {
            assert(q.to_set().contains(q[0]));
        }
        assert(p =~= q);
    } else {
        assert(p.to_set().contains(p.last()));
        let k = choose|k: int| 0 <= k < q.len() && q[k] == p.last();
        assert(q.to_set().contains(q.last()));
        let l = choose|l: int| 0 <= l < p.len() && p[l] == q.last();
        if k < q.len() - 1 {
            assert(lex_lt(q[k], q[q.len() - 1]));
            if l < p.len() - 1 {
                assert(lex_lt(p[l], p[p.len() - 1]));
                lemma_lex_transitive(q[k], q.last(), p.last());
            }
            lemma_lex_irreflexive(p.last());
        }
        assert(p.last() == q.last());
        let (a, b) = (p.drop_last(), q.drop_last());
        assert forall|x: Seq<char>| a.to_set().contains(x) <==> b.to_set().contains(x) by {
            lemma_lex_irreflexive(p.last());
            if a.to_set().contains(x) {
                let i = choose|i: int| 0 <= i < a.len() && a[i] == x;
                assert(p[i] == x && lex_lt(p[i], p[p.len() - 1]));
                assert(q.to_set().contains(x));
                let j = choose|j: int| 0 <= j < q.len() && q[j] == x;
                assert(j < q.len() - 1);
                assert(b[j] == x);
            }
            if b.to_set().contains(x) {
                let i = choose|i: int| 0 <= i < b.len() && b[i] == x;
                assert(q[i] == x && lex_lt(q[i], q[q.len() - 1]));
                assert(p.to_set().contains(x));
                let j = choose|j: int| 0 <= j < p.len() && p[j] == x;
                assert(j < p.len() - 1);
                assert(a[j] == x);
            }
        }
        assert(a.to_set() =~= b.to_set());
        lemma_ascending_unique(a, b);
        assert(p =~= a.push(p.last()));
        assert(q =~= b.push(q.last()));
    }
}

/// An ascending sequence is the ordered listing of its own elements.
pub proof fn lemma_in_order(q: Seq<Seq<char>>)
    requires
        ascending(q),
    ensures
        in_order(q.to_set()) == q,
{
    let r = in_order(q.to_set());
    assert(ascending(q) && q.to_set() == q.to_set());
    lemma_ascending_unique(r, q);
}

/// Where `x` belongs in an ascending sequence.
proof fn lemma_place(q: Seq<Seq<char>>, x: Seq<char>) -> (p: int)
    requires
        ascending(q),
        !q.contains(x),
    ensures
        0 <= p <= q.len(),
        forall|i: int| 0 <= i < p ==> lex_lt(#[trigger] q[i], x),
        forall|i: int| p <= i < q.len() ==> lex_lt(x, #[trigger] q[i]),
    decreases q.len(),
{
    if q.len() == 0 {
        0
    } else {
        let last = q[q.len() - 1];
        assert(q.contains(last));
        lemma_lex_total(last, x);
        if lex_lt(last, x) {
            assert forall|i: int| 0 <= i < q.len() implies lex_lt(#[trigger] q[i], x) by {
                if i < q.len() - 1 {
                    assert(lex_lt(q[i], q[q.len() - 1]));
                    lemma_lex_transitive(q[i], last, x);
                }
            }
            q.len() as int
        } else {
            let rest = q.drop_last();
            assert forall|i: int, j: int| 0 <= i < j < rest.len() implies lex_lt(
                #[trigger] rest[i],
                #[trigger] rest[j],
            ) by {
                assert(lex_lt(q[i], q[j]));
            }
            assert forall|i: int| 0 <= i < rest.len() implies rest[i] != x by {
                assert(q.contains(q[i]));
            }
            let p = lemma_place(rest, x);
            assert forall|i: int| 0 <= i < p implies lex_lt(#[trigger] q[i], x) by {
                assert(rest[i] == q[i]);
            }
            assert forall|i: int| p <= i < q.len() implies lex_lt(x, #[trigger] q[i]) by {
                if i < q.len() - 1 {
                    assert(rest[i] == q[i]);
                }
            }
            p
        }
    }
}

/// Every finite set has an ordered listing.
pub proof fn lemma_in_order_lists(s: Set<Seq<char>>)
    requires
        s.finite(),
    ensures
        ascending(in_order(s)),
        in_order(s).to_set() == s,
    decreases s.len(),
{
    if s.len() == 0 {
        let q = Seq::<Seq<char>>::empty();
        assert(q.to_set() =~= s);
        assert(ascending(q) && q.to_set() == s);
    } else {
        let x = s.choose();
        let t = s.remove(x);
        lemma_in_order_lists(t);
        let q = in_order(t);
        assert(!q.contains(x)) by {
            if q.contains(x) {
                assert(q.to_set().contains(x));
            }
        }
        let p = lemma_place(q, x);
        let r = q.insert(p, x);
        assert forall|i: int, j: int| 0 <= i < j < r.len() implies lex_lt(
            #[trigger] r[i],
            #[trigger] r[j],
        ) by {
            let a = if i < p {
                i
            } else {
                i - 1
            };
            let b = if j < p {
                j
            } else {
                j - 1
            };
            if i != p && j != p {
                assert(r[i] == q[a] && r[j] == q[b]);
                assert(lex_lt(q[a], q[b]));
            } else if i == p {
                assert(r[j] == q[b]);
            } else {
                assert(r[i] == q[a]);
            }
        }
        assert forall|y: Seq<char>| r.to_set().contains(y) <==> s.contains(y) by {
            if r.contains(y) {
                let i = choose|i: int| 0 <= i < r.len() && r[i] == y;
                if i < p {
                    assert(q[i] == y);
                    assert(q.to_set().contains(y));
                } else if i > p {
                    assert(q[i - 1] == y);
                    assert(q.to_set().contains(y));
                }
            }
            if s.contains(y) {
                if y == x {
                    assert(r[p] == y);
                } else {
                    assert(q.to_set().contains(y));
                    let i = choose|i: int| 0 <= i < q.len() && q[i] == y;
                    let k = if i < p {
                        i
                    } else {
                        i + 1
                    };
                    assert(r[k] == y);
                }
            }
        }
        assert(r.to_set() =~= s);
        assert(ascending(r) && r.to_set() == s);
    }
}

/// The map that a listing of keys and values stands for.
pub open spec fn map_of<V>(e: Seq<(Seq<char>, V)>) -> Map<Seq<char>, V> {
    Map::new(
        |k: Seq<char>| exists|i: int| 0 <= i < e.len() && (#[trigger] e[i]).0 == k,
        |k: Seq<char>| e[position_of(e, k)].1,
    )
}

/// A position at which `k` stands.
pub open spec fn position_of<V>(e: Seq<(Seq<char>, V)>, k: Seq<char>) -> int {
    choose|i: int| 0 <= i < e.len() && (#[trigger] e[i]).0 == k
}

pub open spec fn keys_of<V>(e: Seq<(Seq<char>, V)>) -> Seq<Seq<char>> {
    Seq::new(e.len(), |i: int| e[i].0)
}

/// A map from strings, in ascending key order.
pub struct StrMap<V> {
    items: Vec<(String, V)>,
}

impl<V> View for StrMap<V> {
    type V = Map<Seq<char>, V>;

    open spec fn view(&self) -> Map<Seq<char>, V> {
        map_of(self.entries())
    }
}

impl<V: DeepView> DeepView for StrMap<V> {
    type V = Map<Seq<char>, V::V>;

    open spec fn deep_view(&self) -> Map<Seq<char>, V::V> {
        deep(self@)
    }
}

/// The map of the views of the values.
pub open spec fn deep<V: DeepView>(m: Map<Seq<char>, V>) -> Map<Seq<char>, V::V> {
    m.map_values(|v: V| v.deep_view())
}

pub broadcast proof fn lemma_deep_insert<V: DeepView>(m: Map<Seq<char>, V>, k: Seq<char>, v: V)
    ensures
        #[trigger] deep(m.insert(k, v)) == deep(m).insert(k, v.deep_view()),
{
    assert(deep(m.insert(k, v)) =~= deep(m).insert(k, v.deep_view()));
}

impl<V> StrMap<V> {
    /// The keys and values, in ascending key order.
    pub closed spec fn entries(&self) -> Seq<(Seq<char>, V)> {
        Seq::new(self.items@.len(), |i: int| (self.items@[i].0@, self.items@[i].1))
    }

    pub open spec fn ordered(&self) -> bool {
        ascending(keys_of(self.entries()))
    }

    #[verifier::type_invariant]
    spec fn well_formed(self) -> bool {
        self.ordered()
    }

    /// The value at each position is the value of its key.
    pub proof fn lemma_entry(&self, i: int)
        requires
            self.ordered(),
            0 <= i < self.entries().len(),
        ensures
            self@.contains_key(self.entries()[i].0),
            self@[self.entries()[i].0] == self.entries()[i].1,
    {
        let e = self.entries();
        let k = e[i].0;
        let j = position_of(e, k);
        assert(e[i].0 == k);
        assert(e[j].0 == k);
        assert(keys_of(e)[i] == keys_of(e)[j]);
        lemma_lex_irreflexive(k);
    }

    pub fn new() -> (r: Self)
        ensures
            r@ == Map::<Seq<char>, V>::empty(),
            r.entries().len() == 0,
    {
        let r = StrMap { items: Vec::new() };
        assert(r@ =~= Map::<Seq<char>, V>::empty());
        r
    }

    pub fn len(&self) -> (r: usize)
        ensures
            r == self.entries().len(),
            self.ordered(),
    {
        proof {
            use_type_invariant(&*self);
        }
        self.items.len()
    }

    pub fn is_empty(&self) -> (r: bool)
        ensures
            r == (self.entries().len() == 0),
            r == (self@ == Map::<Seq<char>, V>::empty()),
    {
        proof {
            use_type_invariant(&*self);
            if self.entries().len() > 0 {
                self.lemma_entry(0);
            } else {
                assert(self@ =~= Map::<Seq<char>, V>::empty());
            }
        }
        self.items.len() == 0
    }

    pub fn key_at(&self, i: usize) -> (r: &String)
        requires
            i < self.entries().len(),
        ensures
            r@ == self.entries()[i as int].0,
    {
        &self.items[i].0
    }

    pub fn value_at(&self, i: usize) -> (r: &V)
        requires
            i < self.entries().len(),
        ensures
            *r == self.entries()[i as int].1,
            self@.contains_key(self.entries()[i as int].0),
            self@[self.entries()[i as int].0] == *r,
    {
        proof {
            use_type_invariant(&*self);
            self.lemma_entry(i as int);
        }
        &self.items[i].1
    }

    /// Position of the first key that is not below `key`.
    fn position(&self, key: &str) -> (r: usize)
        ensures
            r <= self.entries().len(),
            forall|i: int| 0 <= i < r ==> lex_lt(self.entries()[i].0, key@),
            r < self.entries().len() ==> !lex_lt(self.entries()[r as int].0, key@),
    {
        let mut i: usize = 0;
        while i < self.items.len() && text::less(self.items[i].0.as_str(), key)
            invariant
                i <= self.items@.len(),
                forall|j: int| 0 <= j < i ==> lex_lt(self.entries()[j].0, key@),
            decreases self.items@.len() - i,
        {
            i += 1;
        }
        i
    }

    /// A key is present exactly when it stands where it would be inserted.
    proof fn lemma_position(&self, key: Seq<char>, r: int)
        requires
            self.ordered(),
            0 <= r <= self.entries().len(),
            forall|i: int| 0 <= i < r ==> lex_lt(self.entries()[i].0, key),
            r < self.entries().len() ==> !lex_lt(self.entries()[r].0, key),
        ensures
            self@.contains_key(key) <==> r < self.entries().len() && self.entries()[r].0 == key,
            forall|i: int|
                r <= i < self.entries().len() && self.entries()[r].0 != key ==> lex_lt(
                    key,
                    (#[trigger] self.entries()[i]).0,
                ),
    {
        let e = self.entries();
        lemma_lex_irreflexive(key);
        assert forall|i: int| r <= i < e.len() && e[r].0 != key implies lex_lt(
            key,
            (#[trigger] e[i]).0,
        ) by {
            lemma_lex_total(e[r].0, key);
            if i > r {
                assert(lex_lt(keys_of(e)[r], keys_of(e)[i]));
                lemma_lex_transitive(key, e[r].0, e[i].0);
            }
        }
        if self@.contains_key(key) {
            let i = choose|i: int| 0 <= i < e.len() && (#[trigger] e[i]).0 == key;
            assert(i >= r);
        }
        if r < e.len() && e[r].0 == key {
            self.lemma_entry(r);
        }
    }

    pub fn get(&self, key: &str) -> (r: Option<&V>)
        ensures
            match r {
                Some(v) => self@.contains_key(key@) && *v == self@[key@],
                None => !self@.contains_key(key@),
            },
    {
        let i: usize = self.position(key);
        proof {
            use_type_invariant(&*self);
            self.lemma_position(key@, i as int);
        }
        if i < self.items.len() && text::same(self.items[i].0.as_str(), key) {
            proof {
                self.lemma_entry(i as int);
            }
            Some(&self.items[i].1)
        } else {
            None
        }
    }

    pub fn contains_key(&self, key: &str) -> (r: bool)
        ensures
            r == self@.contains_key(key@),
    {
        self.get(key).is_some()
    }

    /// Adds the value, in place of an earlier one under the same key.
    pub fn insert(&mut self, key: String, value: V)
        ensures
            final(self)@ == old(self)@.insert(key@, value),
    {
        let i: usize = self.position(key.as_str());
        let ghost before = *self;
        proof {
            use_type_invariant(&*self);
            self.lemma_position(key@, i as int);
        }
        let present = i < self.items.len() && text::same(self.items[i].0.as_str(), key.as_str());
        let mut items: Vec<(String, V)> = Vec::new();
        std::mem::swap(&mut items, &mut self.items);
        if present {
            items.remove(i);
        }
        let ghost name = key@;
        items.insert(i, (key, value));
        proof {
            let e = before.entries();
            assert forall|a: int, b: int| 0 <= a < b < items@.len() implies lex_lt(
                (#[trigger] items@[a]).0@,
                (#[trigger] items@[b]).0@,
            ) by {
                let c = if a > i && !present {
                    a - 1
                } else {
                    a
                };
                let d = if b > i && !present {
                    b - 1
                } else {
                    b
                };
                if a != i {
                    assert(items@[a].0@ == e[c].0);
                }
                if b != i {
                    assert(items@[b].0@ == e[d].0);
                }
                if c < d && (present || (a != i && b != i)) {
                    assert(lex_lt(keys_of(e)[c], keys_of(e)[d]));
                }
            }
        }
        let r = StrMap { items };
        proof {
            let e = before.entries();
            let f = r.entries();
            assert(r.ordered());
            assert(f[i as int] == (name, value));
            r.lemma_entry(i as int);
            assert forall|k: Seq<char>| #![auto] r@.contains_key(k) <==> before@.insert(
                name,
                value,
            ).contains_key(k) by {
                if r@.contains_key(k) {
                    let j = choose|j: int| 0 <= j < f.len() && (#[trigger] f[j]).0 == k;
                    if j < i {
                        assert(e[j].0 == k);
                    } else if j > i {
                        let l = if present {
                            j
                        } else {
                            j - 1
                        };
                        assert(e[l].0 == k);
                    }
                }
                if before@.contains_key(k) {
                    let j = choose|j: int| 0 <= j < e.len() && (#[trigger] e[j]).0 == k;
                    let l = if j < i || present {
                        j
                    } else {
                        j + 1
                    };
                    assert(f[l].0 == k);
                }
            }
            assert forall|k: Seq<char>| #![auto] r@.contains_key(k) implies r@[k]
                == before@.insert(name, value)[k] by {
                if k != name {
                    let j = choose|j: int| 0 <= j < e.len() && (#[trigger] e[j]).0 == k;
                    let l = if j < i || present {
                        j
                    } else {
                        j + 1
                    };
                    assert(f[l].0 == k);
                    before.lemma_entry(j);
                    r.lemma_entry(l);
                }
            }
            assert(r@ =~= before@.insert(name, value));
        }
        *self = r;
    }

    /// The keys, ascending.
    pub fn keys(&self) -> (r: Vec<&String>)
        ensures
            r.deep_view() == keys_of(self.entries()),
            r.deep_view() == in_order(self@.dom()),
            ascending(r.deep_view()),
            r.deep_view().to_set() == self@.dom(),
    {
        let mut out: Vec<&String> = Vec::new();
        let mut i: usize = 0;
        while i < self.items.len()
            invariant
                i <= self.items@.len(),
                out@.len() == i,
                forall|j: int| 0 <= j < i ==> out@[j]@ == self.entries()[j].0,
            decreases self.items@.len() - i,
        {
            out.push(&self.items[i].0);
            i += 1;
        }
        assert(out.deep_view() =~= keys_of(self.entries()));
        proof {
            use_type_invariant(&*self);
            let e = self.entries();
            let q = out.deep_view();
            assert forall|k: Seq<char>| q.to_set().contains(k) <==> self@.dom().contains(k) by {
                if q.to_set().contains(k) {
                    let i = choose|i: int| 0 <= i < q.len() && q[i] == k;
                    assert(e[i].0 == k);
                }
                if self@.contains_key(k) {
                    let i = position_of(e, k);
                    assert(q[i] == k);
                }
            }
            assert(q.to_set() =~= self@.dom());
            lemma_in_order(q);
        }
        out
    }

    /// The values, in key order.
    pub fn values(&self) -> (r: Vec<&V>)
        ensures
            r@.len() == self.entries().len(),
            forall|i: int| 0 <= i < r@.len() ==> *(#[trigger] r@[i]) == self.entries()[i].1,
    {
        let mut out: Vec<&V> = Vec::new();
        let mut i: usize = 0;
        while i < self.items.len()
            invariant
                i <= self.items@.len(),
                out@.len() == i,
                forall|j: int| 0 <= j < i ==> *(#[trigger] out@[j]) == self.entries()[j].1,
            decreases self.items@.len() - i,
        {
            out.push(&self.items[i].1);
            i += 1;
        }
        out
    }
}

/// The map of one more entry of an ascending listing.
pub proof fn lemma_first_entries<V>(e: Seq<(Seq<char>, V)>, i: int)
    requires
        ascending(keys_of(e)),
        0 <= i < e.len(),
    ensures
        map_of(e.take(i + 1)) == map_of(e.take(i)).insert(e[i].0, e[i].1),
{
    let a = e.take(i);
    let b = e.take(i + 1);
    let (k, v) = e[i];
    assert(b[i] == e[i]);
    assert forall|x: Seq<char>| #![auto] map_of(b).contains_key(x) <==> map_of(a).insert(
        k,
        v,
    ).contains_key(x) by {
        if map_of(a).contains_key(x) {
            let j = position_of(a, x);
            assert(b[j].0 == x);
        }
        if map_of(b).contains_key(x) && x != k {
            let j = position_of(b, x);
            assert(a[j].0 == x);
        }
    }
    assert forall|x: Seq<char>| #![auto] map_of(b).contains_key(x) implies map_of(b)[x] == map_of(
        a,
    ).insert(k, v)[x] by {
        let j = position_of(b, x);
        assert(b[j].0 == x);
        if x == k {
            if j < i {
                assert(lex_lt(keys_of(e)[j], keys_of(e)[i]));
                lemma_lex_irreflexive(k);
            }
        } else {
            assert(a[j].0 == x);
            let l = position_of(a, x);
            assert(a[l].0 == x);
            if j < l {
                assert(lex_lt(keys_of(e)[j], keys_of(e)[l]));
                lemma_lex_irreflexive(x);
            } else if l < j {
                assert(lex_lt(keys_of(e)[l], keys_of(e)[j]));
                lemma_lex_irreflexive(x);
            }
        }
    }
    assert(map_of(b) =~= map_of(a).insert(k, v));
}

/// Adds copies of all entries of another map, in place of earlier ones under the same keys.
pub fn add_all(to: &mut StrMap<String>, from: &StrMap<String>)
    ensures
        final(to).deep_view() == old(to).deep_view().union_prefer_right(from.deep_view()),
{
    let n: usize = from.len();
    let ghost e = from.entries();
    let ghost start = to.deep_view();
    let mut i: usize = 0;
    assert(deep(map_of(e.take(0))) =~= Map::<Seq<char>, Seq<char>>::empty());
    assert(to.deep_view() =~= start.union_prefer_right(deep(map_of(e.take(0)))));
    while i < n
        invariant
            e == from.entries(),
            n == e.len(),
            i <= n,
            from.ordered(),
            to.deep_view() == start.union_prefer_right(deep(map_of(e.take(i as int)))),
        decreases n - i,
    {
        let key = from.key_at(i).clone();
        let value = from.value_at(i).clone();
        proof {
            lemma_first_entries(e, i as int);
            lemma_deep_insert(map_of(e.take(i as int)), key@, e[i as int].1);
            lemma_deep_insert(to@, key@, value);
        }
        let ghost before = to.deep_view();
        to.insert(key, value);
        i += 1;
        assert(to.deep_view() =~= before.insert(key@, value@));
        assert(to.deep_view() =~= start.union_prefer_right(deep(map_of(e.take(i as int)))));
    }
    assert(e.take(i as int) =~= e);
}

/// A set of strings, in ascending order.
pub struct StrSet {
    names: StrMap<()>,
}

impl View for StrSet {
    type V = Set<Seq<char>>;

    closed spec fn view(&self) -> Set<Seq<char>> {
        self.names@.dom()
    }
}

impl StrSet {
    pub fn new() -> (r: Self)
        ensures
            r@ == Set::<Seq<char>>::empty(),
    {
        let r = StrSet { names: StrMap::new() };
        assert(r@ =~= Set::<Seq<char>>::empty());
        r
    }

    pub fn insert(&mut self, name: String)
        ensures
            final(self)@ == old(self)@.insert(name@),
    {
        self.names.insert(name, ());
    }

    pub fn contains(&self, name: &str) -> (r: bool)
        ensures
            r == self@.contains(name@),
    {
        self.names.contains_key(name)
    }

    pub fn is_empty(&self) -> (r: bool)
        ensures
            r == (self@ == Set::<Seq<char>>::empty()),
    {
        let r = self.names.is_empty();
        proof {
            if self@ == Set::<Seq<char>>::empty() {
                assert(self.names@ =~= Map::<Seq<char>, ()>::empty());
            }
            assert(Map::<Seq<char>, ()>::empty().dom() =~= Set::<Seq<char>>::empty());
        }
        r
    }

    /// The elements, ascending.
    pub fn names(&self) -> (r: Vec<&String>)
        ensures
            r.deep_view() == in_order(self@),
            ascending(r.deep_view()),
            r.deep_view().to_set() == self@,
    {
        self.names.keys()
    }
}

} // verus!
