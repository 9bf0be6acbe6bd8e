use vstd::prelude::*;
use crate::address::Address;

verus! {

/// Whether no two entries share an address.
pub open spec fn keys_unique<V>(s: Seq<(Address, V)>) -> bool {
    forall|i: int, j: int| 0 <= i < j < s.len() ==> #[trigger] s[i].0 != #[trigger] s[j].0
}

/// Whether some entry holds address `a`.
pub open spec fn has_key<V>(s: Seq<(Address, V)>, a: Address) -> bool {
    exists|i: int| 0 <= i < s.len() && #[trigger] s[i].0 == a
}

/// The map from address to value that a sequence of entries stands for.
pub open spec fn as_map<V>(s: Seq<(Address, V)>) -> Map<Address, V> {
    Map::new(
        |a: Address| has_key(s, a),
        |a: Address| s[choose|i: int| 0 <= i < s.len() && #[trigger] s[i].0 == a].1,
    )
}

/// With unique addresses, the map gives each entry's value at its address.
pub proof fn lemma_as_map_index<V>(s: Seq<(Address, V)>, i: int)
    requires
        keys_unique(s),
        0 <= i < s.len(),
    ensures
        as_map(s).contains_key(s[i].0),
        as_map(s)[s[i].0] == s[i].1,
{
    assert(has_key(s, s[i].0));
    let j = choose|j: int| 0 <= j < s.len() && #[trigger] s[j].0 == s[i].0;
    if j != i {
        if j < i {
            assert(s[j].0 != s[i].0);
        } else {
            assert(s[i].0 != s[j].0);
        }
    }
}

/// Replacing the value of one entry replaces it in the map.
pub proof fn lemma_as_map_update<V>(s: Seq<(Address, V)>, i: int, v: V)
    requires
        keys_unique(s),
        0 <= i < s.len(),
    ensures
        keys_unique(s.update(i, (s[i].0, v))),
        as_map(s.update(i, (s[i].0, v))) == as_map(s).insert(s[i].0, v),
{
    let t = s.update(i, (s[i].0, v));
    assert(keys_unique(t)) by {
        assert forall|x: int, y: int| 0 <= x < y < t.len() implies #[trigger] t[x].0
            != #[trigger] t[y].0 by {
            assert(s[x].0 != s[y].0);
        }
    }
    assert forall|a: Address| #[trigger] has_key(t, a) == has_key(s, a) by {
        if has_key(t, a) {
            let k = choose|k: int| 0 <= k < t.len() && #[trigger] t[k].0 == a;
            assert(s[k].0 == a);
        }
        if has_key(s, a) {
            let k = choose|k: int| 0 <= k < s.len() && #[trigger] s[k].0 == a;
            assert(t[k].0 == a);
        }
    }
    assert forall|a: Address| #[trigger] as_map(t).contains_key(a) implies as_map(t)[a]
        == as_map(s).insert(s[i].0, v)[a] by {
        let k = choose|k: int| 0 <= k < t.len() && #[trigger] t[k].0 == a;
        lemma_as_map_index(t, k);
        if k != i {
            lemma_as_map_index(s, k);
        }
    }
    assert(as_map(t) =~= as_map(s).insert(s[i].0, v));
}

/// Appending an entry under a new address adds it to the map.
pub proof fn lemma_as_map_push<V>(s: Seq<(Address, V)>, a: Address, v: V)
    requires
        keys_unique(s),
        !has_key(s, a),
    ensures
        keys_unique(s.push((a, v))),
        as_map(s.push((a, v))) == as_map(s).insert(a, v),
{
    let t = s.push((a, v));
    assert(keys_unique(t)) by {
        assert forall|x: int, y: int| 0 <= x < y < t.len() implies #[trigger] t[x].0
            != #[trigger] t[y].0 by {
            if y == s.len() {
                assert(s[x].0 != a);
            } else {
                assert(s[x].0 != s[y].0);
            }
        }
    }
    assert forall|b: Address| #[trigger] has_key(t, b) == (has_key(s, b) || b == a) by {
        if has_key(t, b) {
            let k = choose|k: int| 0 <= k < t.len() && #[trigger] t[k].0 == b;
            if k < s.len() {
                assert(s[k].0 == b);
            }
        }
        if has_key(s, b) {
            let k = choose|k: int| 0 <= k < s.len() && #[trigger] s[k].0 == b;
            assert(t[k].0 == b);
        }
        if b == a {
            assert(t[s.len() as int].0 == b);
        }
    }
    assert forall|b: Address| #[trigger] as_map(t).contains_key(b) implies as_map(t)[b]
        == as_map(s).insert(a, v)[b] by {
        let k = choose|k: int| 0 <= k < t.len() && #[trigger] t[k].0 == b;
        lemma_as_map_index(t, k);
        if k < s.len() {
            assert(s[k] == t[k]);
            lemma_as_map_index(s, k);
        }
    }
    assert(as_map(t) =~= as_map(s).insert(a, v));
}

/// A finite map keyed by address, kept as a vector of entries in insertion order.
pub struct AddressMap<V> {
    entries: Vec<(Address, V)>,
}

impl<V> AddressMap<V> {
    /// The entries, in insertion order.
    pub closed spec fn entries(&self) -> Seq<(Address, V)> {
        self.entries@
    }

    /// The map that the entries stand for.
    pub open spec fn view(&self) -> Map<Address, V> {
        as_map(self.entries())
    }

    /// Well-formedness: no address occurs twice.
    pub open spec fn wf(&self) -> bool {
        keys_unique(self.entries())
    }

    /// Every stored address has an entry holding its value, and every entry
    /// holds the stored value at its address.
    pub proof fn lemma_entries(&self)
        requires
            self.wf(),
        ensures
            forall|a: Address| #[trigger] self@.contains_key(a) ==> exists|i: int| 0 <= i < self.entries().len() && #[trigger] self.entries()[i] == (a, self@[a]),
            forall|i: int| 0 <= i < self.entries().len() ==> #[trigger] self@.contains_key(self.entries()[i].0) && self@[self.entries()[i].0] == self.entries()[i].1,
    {
        let s = self.entries();
        assert forall|i: int| 0 <= i < s.len() implies #[trigger] self@.contains_key(s[i].0) && self@[s[i].0] == s[i].1 by {
            lemma_as_map_index(s, i);
        }
        assert forall|a: Address| #[trigger] self@.contains_key(a) implies exists|i: int| 0 <= i < s.len() && #[trigger] s[i] == (a, self@[a]) by {
            let k = choose|k: int| 0 <= k < s.len() && #[trigger] s[k].0 == a;
            lemma_as_map_index(s, k);
            assert(s[k] == (a, self@[a]));
        }
    }

    /// An empty map.
    pub fn new() -> (r: AddressMap<V>)
        ensures
            r.wf(),
            r.entries() == Seq::<(Address, V)>::empty(),
            r@ == Map::<Address, V>::empty(),
    {
        let r = AddressMap { entries: Vec::new() };
        assert(r@ =~= Map::<Address, V>::empty());
        r
    }

    /// Number of entries.
    pub fn len(&self) -> (r: usize)
        ensures
            r == self.entries().len(),
    {
        self.entries.len()
    }

    /// The entry at position `i`.
    pub fn entry(&self, i: usize) -> (r: &(Address, V))
        requires
            i < self.entries().len(),
        ensures
            *r == self.entries()[i as int],
    {
        &self.entries[i]
    }

    /// The position of address `a`, if it is present.
    pub fn find(&self, a: &Address) -> (r: Option<usize>)
        requires
            self.wf(),
        ensures
            match r {
                Some(i) => i < self.entries().len() && self.entries()[i as int].0 == *a,
                None => !has_key(self.entries(), *a),
            },
            r is Some <==> self@.contains_key(*a),
    {
        let mut i: usize = 0;
        while i < self.entries.len()
            invariant
                0 <= i <= self.entries@.len(),
                forall|j: int| 0 <= j < i ==> self.entries@[j].0 != *a,
            decreases self.entries@.len() - i,
        {
            if self.entries[i].0.same(a) {
                return Some(i);
            }
            i = i + 1;
        }
        None
    }

    /// The value stored at address `a`, if any.
    pub fn get(&self, a: &Address) -> (r: Option<&V>)
        requires
            self.wf(),
        ensures
            match r {
                Some(v) => self@.contains_key(*a) && *v == self@[*a],
                None => !self@.contains_key(*a),
            },
    {
        match self.find(a) {
            Some(i) => {
                proof {
                    lemma_as_map_index(self.entries(), i as int);
                }
                Some(&self.entries[i].1)
            },
            None => None,
        }
    }

    /// Stores `v` at address `a`, replacing any value there.
    pub fn insert(&mut self, a: Address, v: V)
        requires
            old(self).wf(),
        ensures
            final(self).wf(),
            final(self)@ == old(self)@.insert(a, v),
    {
        match self.find(&a) {
            Some(i) => {
                proof {
                    lemma_as_map_update(self.entries(), i as int, v);
                }
                self.entries.set(i, (a, v));
            },
            None => {
                proof {
                    lemma_as_map_push(self.entries(), a, v);
                }
                self.entries.push((a, v));
            },
        }
    }
}

} // verus!
