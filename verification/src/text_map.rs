//! The order of texts, and maps that are keyed by text and walked in that order.
use vstd::prelude::*;

use crate::text::{chars_of, str_eq};

verus! {

/// Whether `a` comes no later than `b` when texts are compared character by character.
pub open spec fn text_le(a: Seq<char>, b: Seq<char>) -> bool
    decreases a.len(),
{
    if a.len() == 0 {
        true
    } else if b.len() == 0 {
        false
    } else if a[0] == b[0] {
        text_le(a.skip(1), b.skip(1))
    } else {
        a[0] < b[0]
    }
}

pub proof fn lemma_text_le_total(a: Seq<char>, b: Seq<char>)
    ensures
        text_le(a, b) || text_le(b, a),
    decreases a.len(),
{
    if a.len() > 0 && b.len() > 0 && a[0] == b[0] {
        lemma_text_le_total(a.skip(1), b.skip(1));
    }
}

pub proof fn lemma_text_le_transitive(a: Seq<char>, b: Seq<char>, c: Seq<char>)
    requires
        text_le(a, b),
        text_le(b, c),
    ensures
        text_le(a, c),
    decreases a.len(),
{
    if a.len() > 0 && b.len() > 0 && c.len() > 0 && a[0] == b[0] && b[0] == c[0] {
        lemma_text_le_transitive(a.skip(1), b.skip(1), c.skip(1));
    }
}

pub proof fn lemma_text_le_antisymmetric(a: Seq<char>, b: Seq<char>)
    requires
        text_le(a, b),
        text_le(b, a),
    ensures
        a == b,
    decreases a.len(),
{
    if a.len() > 0 && b.len() > 0 {
        lemma_text_le_antisymmetric(a.skip(1), b.skip(1));
        assert(a =~= seq![a[0]] + a.skip(1));
        assert(b =~= seq![b[0]] + b.skip(1));
    } else {
        assert(a =~= b);
    }
}

/// Whether `a` comes no later than `b`.
pub fn text_at_most(a: &str, b: &str) -> (r: bool)
    ensures
        r == text_le(a@, b@),
{
    let x = chars_of(a);
    let y = chars_of(b);
    let mut i: usize = 0;
    assert(x@.skip(0) =~= x@);
    assert(y@.skip(0) =~= y@);
    while i < x.len() && i < y.len()
        invariant
            x@ == a@,
            y@ == b@,
            i <= x@.len(),
            i <= y@.len(),
            text_le(x@, y@) == text_le(x@.skip(i as int), y@.skip(i as int)),
        decreases x.len() - i,
    {
        if x[i] != y[i] {
            assert(x@.skip(i as int)[0] == x@[i as int]);
            let c: char = x[i];
            let d: char = y[i];
            return c < d;
        }
        assert(x@.skip(i as int).skip(1) =~= x@.skip(i + 1));
        assert(y@.skip(i as int).skip(1) =~= y@.skip(i + 1));
        i = i + 1;
    }
    i == x.len()
}

/// Whether each text comes before the next.
pub open spec fn ascending(texts: Seq<Seq<char>>) -> bool {
    forall|i: int, j: int|
        0 <= i < j < texts.len() ==> #[trigger] text_le(texts[i], texts[j]) && texts[i] != texts[j]
}

/// The same texts can be brought into ascending order in one way only.
pub proof fn lemma_ascending_is_unique(a: Seq<Seq<char>>, b: Seq<Seq<char>>)
    requires
        ascending(a),
        ascending(b),
        forall|t: Seq<char>| a.contains(t) <==> b.contains(t),
    ensures
        a == b,
    decreases a.len(),
{
    if a.len() == 0 {
        if b.len() > 0 {
            assert(b.contains(b[0]));
        }
        assert(a =~= b);
    } else {
        assert(a.contains(a.last()));
        let i = choose|i: int| 0 <= i < b.len() && b[i] == a.last();
        assert(b.contains(b.last()));
        let j = choose|j: int| 0 <= j < a.len() && a[j] == b.last();
        if a.last() != b.last() {
            assert(text_le(b[i], b[b.len() - 1]));
            assert(text_le(a[j], a[a.len() - 1]));
            lemma_text_le_antisymmetric(a.last(), b.last());
        }
        let c = a.drop_last();
        let d = b.drop_last();
        assert forall|x: int, y: int| 0 <= x < y < c.len() implies #[trigger] text_le(c[x], c[y])
            && c[x] != c[y] by {
            assert(text_le(a[x], a[y]));
        }
        assert forall|x: int, y: int| 0 <= x < y < d.len() implies #[trigger] text_le(d[x], d[y])
            && d[x] != d[y] by {
            assert(text_le(b[x], b[y]));
        }
        assert forall|t: Seq<char>| c.contains(t) <==> d.contains(t) by {
            if c.contains(t) {
                let k = choose|k: int| 0 <= k < c.len() && c[k] == t;
                assert(a[k] == t);
                assert(text_le(a[k], a[a.len() - 1]));
                assert(b.contains(t));
                let m = choose|m: int| 0 <= m < b.len() && b[m] == t;
                assert(d[m] == t);
            }
            if d.contains(t) {
                let k = choose|k: int| 0 <= k < d.len() && d[k] == t;
                assert(b[k] == t);
                assert(text_le(b[k], b[b.len() - 1]));
                assert(a.contains(t));
                let m = choose|m: int| 0 <= m < a.len() && a[m] == t;
                assert(c[m] == t);
            }
        }
        lemma_ascending_is_unique(c, d);
        assert(a =~= c.push(a.last()));
        assert(b =~= d.push(b.last()));
    }
}

/// A map from texts to values, walked in the order of its keys.
#[derive(Debug)]
pub struct TextMap<V> {
    entries: Vec<(String, V)>,
}

impl<V> TextMap<V> {
    /// The keys, in the order they are walked in.
    pub closed spec fn keys(self) -> Seq<Seq<char>> {
        Seq::new(self.entries@.len(), |i: int| self.entries@[i].0@)
    }

    /// The values, in the order of their keys.
    pub closed spec fn values(self) -> Seq<V> {
        Seq::new(self.entries@.len(), |i: int| self.entries@[i].1)
    }

    /// Each key comes before the next, so that none occurs twice.
    pub open spec fn wf(self) -> bool {
        &&& self.keys().len() == self.values().len()
        &&& ascending(self.keys())
    }

    /// Where `key` stands among the keys.
    pub open spec fn index_of(self, key: Seq<char>) -> int {
        choose|i: int| 0 <= i < self.keys().len() && self.keys()[i] == key
    }

    /// The map from keys to values.
    pub open spec fn view(self) -> Map<Seq<char>, V> {
        Map::new(|k: Seq<char>| self.keys().contains(k), |k: Seq<char>| self.values()[self.index_of(k)])
    }

    proof fn lemma_index(self, i: int)
        requires
            self.wf(),
            0 <= i < self.keys().len(),
        ensures
            self.index_of(self.keys()[i]) == i,
            self@.contains_key(self.keys()[i]),
            self@[self.keys()[i]] == self.values()[i],
    {
        let k = self.keys()[i];
        let j = self.index_of(k);
        assert(0 <= j < self.keys().len() && self.keys()[j] == k);
        if i < j {
            assert(text_le(self.keys()[i], self.keys()[j]));
        } else if j < i {
            assert(text_le(self.keys()[j], self.keys()[i]));
        }
        assert(self.keys().contains(k));
    }

    /// The empty map.
    pub fn new() -> (r: Self)
        ensures
            r.wf(),
            r@ == Map::<Seq<char>, V>::empty(),
            r.keys() == Seq::<Seq<char>>::empty(),
    {
        let r = TextMap { entries: Vec::new() };
        assert(r@ =~= Map::<Seq<char>, V>::empty());
        r
    }

    /// How many keys there are.
    pub fn len(&self) -> (n: usize)
        requires
            self.wf(),
        ensures
            n == self.keys().len(),
    {
        self.entries.len()
    }

    /// The key at position `i`.
    pub fn key_at(&self, i: usize) -> (r: &str)
        requires
            self.wf(),
            i < self.keys().len(),
        ensures
            r@ == self.keys()[i as int],
    {
        self.entries[i].0.as_str()
    }

    /// The value at position `i`.
    pub fn value_at(&self, i: usize) -> (r: &V)
        requires
            self.wf(),
            i < self.keys().len(),
        ensures
            *r == self.values()[i as int],
            self@.contains_key(self.keys()[i as int]),
            *r == self@[self.keys()[i as int]],
    {
        proof {
            self.lemma_index(i as int);
        }
        &self.entries[i].1
    }

    /// The position of the first key that comes no earlier than `key`.
    fn position(&self, key: &str) -> (n: usize)
        requires
            self.wf(),
        ensures
            n <= self.keys().len(),
            forall|i: int|
                0 <= i < n ==> #[trigger] text_le(self.keys()[i], key@) && self.keys()[i] != key@,
            forall|i: int| n <= i < self.keys().len() ==> #[trigger] text_le(key@, self.keys()[i]),
    {
        let mut n: usize = 0;
        while n < self.entries.len() && !text_at_most(key, self.entries[n].0.as_str())
            invariant
                self.wf(),
                n <= self.keys().len(),
                self.keys().len() == self.entries@.len(),
                forall|i: int|
                    0 <= i < n ==> #[trigger] text_le(self.keys()[i], key@) && self.keys()[i] != key@,
            decreases self.entries.len() - n,
        {
            proof {
                lemma_text_le_total(key@, self.keys()[n as int]);
            }
            n = n + 1;
        }
        proof {
            assert forall|i: int| n <= i < self.keys().len() implies #[trigger] text_le(
                key@,
                self.keys()[i],
            ) by {
                if i > n {
                    assert(text_le(self.keys()[n as int], self.keys()[i]));
                    lemma_text_le_transitive(key@, self.keys()[n as int], self.keys()[i]);
                }
            }
        }
        n
    }

    /// The position of `key`, if it is one of the keys.
    fn find(&self, key: &str) -> (r: Option<usize>)
        requires
            self.wf(),
        ensures
            match r {
                Some(i) => i < self.keys().len() && self.keys()[i as int] == key@,
                None => !self.keys().contains(key@),
            },
    {
        let n: usize = self.position(key);
        if n < self.entries.len() && str_eq(self.entries[n].0.as_str(), key) {
            return Some(n);
        }
        proof {
            assert forall|i: int| 0 <= i < self.keys().len() implies self.keys()[i] != key@ by {
                if i < n {
                    assert(text_le(self.keys()[i], key@));
                } else if i > n {
                    assert(text_le(key@, self.keys()[n as int]));
                    assert(text_le(self.keys()[n as int], self.keys()[i]));
                    if self.keys()[i] == key@ {
                        lemma_text_le_antisymmetric(self.keys()[n as int], self.keys()[i]);
                    }
                }
            }
        }
        None
    }

    /// The value of `key`.
    pub fn get(&self, key: &str) -> (r: Option<&V>)
        requires
            self.wf(),
        ensures
            match r {
                Some(v) => self@.contains_key(key@) && *v == self@[key@],
                None => !self@.contains_key(key@),
            },
    {
        match self.find(key) {
            Some(i) => {
                proof {
                    self.lemma_index(i as int);
                }
                Some(&self.entries[i].1)
            },
            None => None,
        }
    }

    /// A map whose entries are those of `self` with `key` at position `n` is well formed and
    /// holds what `self` held, with the value of `key` replaced.
    proof fn lemma_entry(self, key: Seq<char>, n: int, after: Self)
        requires
            self.wf(),
            0 <= n <= self.keys().len(),
            forall|i: int| 0 <= i < n ==> #[trigger] text_le(self.keys()[i], key) && self.keys()[i] != key,
            forall|i: int| n <= i < self.keys().len() ==> #[trigger] text_le(key, self.keys()[i]),
            0 <= n < after.keys().len(),
            after.keys()[n] == key,
            if self.keys().contains(key) {
                n < self.keys().len() && self.keys()[n] == key && after.keys() == self.keys()
                    && after.values() == self.values().update(n, after.values()[n])
            } else {
                after.keys() == self.keys().insert(n, key) && after.values() == self.values().insert(
                    n,
                    after.values()[n],
                )
            },
        ensures
            after.wf(),
            after@ == self@.insert(key, after.values()[n]),
    {
        let k1 = self.keys();
        let k2 = after.keys();
        if !k1.contains(key) {
            assert forall|i: int, j: int| 0 <= i < j < k2.len() implies #[trigger] text_le(k2[i], k2[j])
                && k2[i] != k2[j] by {
                let a = if i < n { i } else { i - 1 };
                let b = if j < n { j } else { j - 1 };
                if i != n {
                    assert(k2[i] == k1[a]);
                    assert(text_le(k1[a], key) || text_le(key, k1[a]));
                }
                if j != n {
                    assert(k2[j] == k1[b]);
                    assert(text_le(k1[b], key) || text_le(key, k1[b]));
                }
                if i != n && j != n {
                    assert(text_le(k1[a], k1[b]));
                }
                if i == n {
                    assert(text_le(key, k1[b]));
                }
                if j == n {
                    assert(text_le(k1[a], key));
                }
            }
        }
        assert(after.wf());
        assert forall|k: Seq<char>| after@.contains_key(k) <==> #[trigger] self@.insert(
            key,
            after.values()[n],
        ).contains_key(k) by {
            if k1.contains(k) && !k1.contains(key) {
                let i = choose|i: int| 0 <= i < k1.len() && k1[i] == k;
                assert(k2[if i < n { i } else { i + 1 }] == k);
            }
            if k2.contains(k) && k != key && !k1.contains(key) {
                let i = choose|i: int| 0 <= i < k2.len() && k2[i] == k;
                assert(k1[if i < n { i } else { i - 1 }] == k);
            }
            assert(k2.contains(key));
        }
        assert forall|k: Seq<char>| after@.contains_key(k) implies #[trigger] after@[k] == self@.insert(
            key,
            after.values()[n],
        )[k] by {
            let i = choose|i: int| 0 <= i < k2.len() && k2[i] == k;
            after.lemma_index(i);
            if k != key {
                let a = if k1.contains(key) || i < n { i } else { i - 1 };
                assert(k1[a] == k);
                self.lemma_index(a);
            } else {
                after.lemma_index(n);
            }
        }
        assert(after@ =~= self@.insert(key, after.values()[n]));
    }

    /// The value of `key`, which is given `value` first where it has none.
    pub fn get_or_insert(&mut self, key: String, value: V) -> (r: &mut V)
        requires
            old(self).wf(),
        ensures
            *r == (if old(self)@.contains_key(key@) {
                old(self)@[key@]
            } else {
                value
            }),
            final(self).wf(),
            final(self)@ == old(self)@.insert(key@, *final(r)),
    {
        let ghost before = *self;
        let ghost name = key@;
        let n: usize = self.position(key.as_str());
        let found: bool = match self.find(key.as_str()) {
            Some(i) => {
                proof {
                    self.lemma_index(i as int);
                    if i < n {
                        assert(text_le(self.keys()[i as int], name));
                    } else if i > n {
                        assert(text_le(name, self.keys()[n as int]));
                        assert(text_le(self.keys()[n as int], self.keys()[i as int]));
                        lemma_text_le_antisymmetric(self.keys()[n as int], name);
                    }
                }
                true
            },
            None => false,
        };
        if !found {
            self.entries.insert(n, (key, value));
        }
        let ghost mid = *self;
        proof {
            assert forall|m: Self|
                #![trigger m.wf()]
                #![trigger m.view()]
                m.entries@ == mid.entries@.update(n as int, (mid.entries@[n as int].0, m.entries@[n as int].1))
                implies m.wf() && m@ == before@.insert(name, m.entries@[n as int].1) by {
                if found {
                    assert(m.keys() =~= before.keys());
                    assert(m.values() =~= before.values().update(n as int, m.values()[n as int]));
                } else {
                    assert(m.keys() =~= before.keys().insert(n as int, name));
                    assert(m.values() =~= before.values().insert(n as int, m.values()[n as int]));
                }
                before.lemma_entry(name, n as int, m);
            }
        }
        &mut self.entries[n].1
    }

    /// Gives `key` the value `value`, in place of the one it had.
    pub fn insert(&mut self, key: String, value: V)
        requires
            old(self).wf(),
        ensures
            final(self).wf(),
            final(self)@ == old(self)@.insert(key@, value),
    {
        let ghost before = *self;
        let ghost name = key@;
        let n: usize = self.position(key.as_str());
        match self.find(key.as_str()) {
            Some(i) => {
                proof {
                    if i < n {
                        assert(text_le(self.keys()[i as int], name));
                    } else if i > n {
                        assert(text_le(name, self.keys()[n as int]));
                        assert(text_le(self.keys()[n as int], self.keys()[i as int]));
                        lemma_text_le_antisymmetric(self.keys()[n as int], name);
                    }
                }
                self.entries.set(n, (key, value));
                assert(self.keys() =~= before.keys());
                assert(self.values() =~= before.values().update(n as int, value));
            },
            None => {
                self.entries.insert(n, (key, value));
                assert(self.keys() =~= before.keys().insert(n as int, name));
                assert(self.values() =~= before.values().insert(n as int, value));
            },
        }
        proof {
            before.lemma_entry(name, n as int, *self);
        }
    }
}

} // verus!
