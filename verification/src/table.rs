//! Small keyed containers the node state is built from: a map keyed by
//! resource name and an insertion-ordered set of addresses.  Both keep their
//! entries in a vector with pairwise-distinct keys, so lookups are linear
//! and iteration order is deterministic.

use vstd::prelude::*;
use crate::Addr;

verus! {

/// A map from resource names to values, keyed by the name's characters.
pub struct NameMap<V> {
    entries: Vec<(String, V)>,
}

impl<V> NameMap<V> {
    #[verifier::type_invariant]
    spec fn wf(self) -> bool {
        forall|i: int, j: int|
            0 <= i < j < self.entries@.len() ==> self.entries@[i].0@ != self.entries@[j].0@
    }
}

impl<V: View> NameMap<V> {
    pub fn new() -> (r: NameMap<V>)
        ensures
            r@ == Map::<Seq<char>, V::V>::empty(),
    {
        let r = NameMap { entries: Vec::new() };
        proof {
            assert(r@ =~= Map::<Seq<char>, V::V>::empty());
        }
        r
    }

    /// The index holding `key`, if any.
    fn find(&self, key: &String) -> (r: Option<usize>)
        ensures
            match r {
                Some(i) => i < self.entries@.len() && self.entries@[i as int].0@ == key@,
                None => forall|i: int|
                    0 <= i < self.entries@.len() ==> self.entries@[i].0@ != key@,
            },
    {
        let n = self.entries.len();
        let mut i: usize = 0;
        while i < n
            invariant
                n == self.entries@.len(),
                i <= n,
                forall|j: int| 0 <= j < i ==> self.entries@[j].0@ != key@,
            decreases n - i,
        {
            if self.entries[i].0 == *key {
                return Some(i);
            }
            i = i + 1;
        }
        None
    }

    pub fn contains_key(&self, key: &String) -> (r: bool)
        ensures
            r == self@.contains_key(key@),
    {
        match self.find(key) {
            Some(_) => true,
            None => false,
        }
    }

    pub fn get(&self, key: &String) -> (r: Option<&V>)
        ensures
            match r {
                Some(v) => self@.contains_key(key@) && v@ == self@[key@],
                None => !self@.contains_key(key@),
            },
    {
        proof {
            use_type_invariant(&*self);
        }
        match self.find(key) {
            Some(i) => Some(&self.entries[i].1),
            None => None,
        }
    }

    pub fn insert(&mut self, key: String, value: V)
        ensures
            final(self)@ == old(self)@.insert(key@, value@),
    {
        proof {
            use_type_invariant(&*self);
        }
        let found = self.find(&key);
        let mut entries: Vec<(String, V)> = Vec::new();
        std::mem::swap(&mut entries, &mut self.entries);
        let ghost s0 = entries@;
        if let Some(i) = found {
            entries.remove(i);
            proof {
                s0.remove_ensures(i as int);
            }
        }
        let ghost s1 = entries@;
        entries.push((key, value));
        self.entries = entries;
        proof {
            assert forall|a: int, b: int|
                0 <= a < b < self.entries@.len() implies self.entries@[a].0@
                != self.entries@[b].0@ by {
                if b < s1.len() {
                    if found is Some {
                        let i = found->0 as int;
                        assert(s1[a] == if a < i { s0[a] } else { s0[a + 1] });
                        assert(s1[b] == if b < i { s0[b] } else { s0[b + 1] });
                    }
                }
            }
            assert(final(self)@ =~= old(self)@.insert(key@, value@)) by {
                assert forall|k: Seq<char>| #[trigger] final(self)@.contains_key(k) implies
                    old(self)@.insert(key@, value@).contains_key(k) by {
                    let w = choose|w: int|
                        0 <= w < self.entries@.len() && self.entries@[w].0@ == k;
                    if w < s1.len() && k != key@ {
                        if found is Some {
                            let i = found->0 as int;
                            assert(s1[w] == if w < i { s0[w] } else { s0[w + 1] });
                        }
                    }
                }
                assert forall|k: Seq<char>|
                    #[trigger] old(self)@.insert(key@, value@).contains_key(k) implies
                    final(self)@.contains_key(k)
                    && final(self)@[k] == old(self)@.insert(key@, value@)[k] by {
                    if k == key@ {
                        assert(self.entries@[s1.len() as int].0@ == k);
                        let w = choose|w: int|
                            0 <= w < self.entries@.len() && self.entries@[w].0@ == k;
                        if w < s1.len() {
                            if found is Some {
                                let i = found->0 as int;
                                assert(s1[w] == if w < i { s0[w] } else { s0[w + 1] });
                            }
                        }
                        assert(w == s1.len());
                    } else {
                        let w0 = choose|w0: int|
                            0 <= w0 < old(self).entries@.len() && old(self).entries@[w0].0@ == k;
                        let w1: int = if found is Some && w0 > found->0 as int {
                            w0 - 1
                        } else {
                            w0
                        };
                        if found is Some {
                            let i = found->0 as int;
                            assert(s1[w1] == if w1 < i { s0[w1] } else { s0[w1 + 1] });
                        }
                        assert(self.entries@[w1].0@ == k);
                        let w = choose|w: int|
                            0 <= w < self.entries@.len() && self.entries@[w].0@ == k;
                        // distinct keys pin the witness down
                        assert(self.entries@[w] == self.entries@[w1]);
                        assert(old(self).entries@[w0].1@ == old(self)@[k]);
                    }
                }
            }
        }
    }

    pub fn remove(&mut self, key: &String) -> (r: Option<V>)
        ensures
            final(self)@ == old(self)@.remove(key@),
            r is Some <==> old(self)@.contains_key(key@),
            r is Some ==> r->0@ == old(self)@[key@],
    {
        proof {
            use_type_invariant(&*self);
        }
        let found = self.find(key);
        match found {
            None => {
                proof {
                    assert(final(self)@ =~= old(self)@.remove(key@));
                }
                None
            },
            Some(i) => {
                let mut entries: Vec<(String, V)> = Vec::new();
                std::mem::swap(&mut entries, &mut self.entries);
                let ghost s0 = entries@;
                let (_, v) = entries.remove(i);
                self.entries = entries;
                proof {
                    s0.remove_ensures(i as int);
                    assert forall|a: int, b: int|
                        0 <= a < b < self.entries@.len() implies self.entries@[a].0@
                        != self.entries@[b].0@ by {
                        assert(self.entries@[a] == if a < i as int { s0[a] } else { s0[a + 1] });
                        assert(self.entries@[b] == if b < i as int { s0[b] } else { s0[b + 1] });
                    }
                    assert(final(self)@ =~= old(self)@.remove(key@)) by {
                        assert forall|k: Seq<char>| #[trigger] final(self)@.contains_key(k) implies
                            old(self)@.remove(key@).contains_key(k)
                            && final(self)@[k] == old(self)@.remove(key@)[k] by {
                            let w = choose|w: int|
                                0 <= w < self.entries@.len() && self.entries@[w].0@ == k;
                            let w0: int = if w < i as int { w } else { w + 1 };
                            assert(self.entries@[w] == s0[w0]);
                            let ww = choose|ww: int|
                                0 <= ww < old(self).entries@.len() && old(self).entries@[ww].0@
                                == k;
                            assert(s0[ww] == s0[w0]);
                        }
                        assert forall|k: Seq<char>|
                            #[trigger] old(self)@.remove(key@).contains_key(k) implies
                            final(self)@.contains_key(k) by {
                            let w0 = choose|w0: int|
                                0 <= w0 < old(self).entries@.len() && old(self).entries@[w0].0@
                                == k;
                            let w: int = if w0 < i as int { w0 } else { w0 - 1 };
                            assert(self.entries@[w] == s0[if w < i as int { w } else { w + 1 }]);
                        }
                    }
                    assert(s0[i as int].1@ == old(self)@[key@]);
                }
                Some(v)
            },
        }
    }
}

impl<V: View> View for NameMap<V> {
    type V = Map<Seq<char>, V::V>;

    closed spec fn view(&self) -> Map<Seq<char>, V::V> {
        Map::new(
            |k: Seq<char>| exists|i: int| 0 <= i < self.entries@.len() && self.entries@[i].0@ == k,
            |k: Seq<char>|
                {
                    let i = choose|i: int|
                        0 <= i < self.entries@.len() && self.entries@[i].0@ == k;
                    self.entries@[i].1@
                },
        )
    }
}

/// A set of peer addresses that remembers insertion order, so that a pass
/// over it (one probe per distinct peer, one grant per queued requester)
/// is deterministic.
pub struct AddrSet {
    items: Vec<Addr>,
}

impl AddrSet {
    #[verifier::type_invariant]
    spec fn wf(self) -> bool {
        forall|i: int, j: int| 0 <= i < j < self.items@.len() ==> self.items@[i] != self.items@[j]
    }

    pub fn new() -> (r: AddrSet)
        ensures
            r@ == Seq::<Addr>::empty(),
    {
        AddrSet { items: Vec::new() }
    }

    pub fn contains(&self, a: Addr) -> (r: bool)
        ensures
            r == self@.contains(a),
    {
        let n = self.items.len();
        let mut i: usize = 0;
        while i < n
            invariant
                n == self.items@.len(),
                i <= n,
                forall|j: int| 0 <= j < i ==> self.items@[j] != a,
            decreases n - i,
        {
            if self.items[i] == a {
                return true;
            }
            i = i + 1;
        }
        proof {
            assert(forall|j: int| 0 <= j < self.items@.len() ==> self.items@[j] != a);
        }
        false
    }

    pub fn len(&self) -> (r: usize)
        ensures
            r == self@.len(),
    {
        self.items.len()
    }

    pub fn is_empty(&self) -> (r: bool)
        ensures
            r == (self@.len() == 0),
    {
        self.items.len() == 0
    }

    pub fn index(&self, i: usize) -> (r: Addr)
        requires
            i < self@.len(),
        ensures
            r == self@[i as int],
    {
        self.items[i]
    }

    /// Add `a` unless it is already present; order of the others is kept.
    pub fn insert(&mut self, a: Addr)
        ensures
            old(self)@.contains(a) ==> final(self)@ == old(self)@,
            !old(self)@.contains(a) ==> final(self)@ == old(self)@.push(a),
    {
        proof {
            use_type_invariant(&*self);
        }
        if !self.contains(a) {
            let mut items: Vec<Addr> = Vec::new();
            std::mem::swap(&mut items, &mut self.items);
            items.push(a);
            self.items = items;
        }
    }

    /// The index holding `a`, if any; it is the first (and only) occurrence.
    fn find(&self, a: Addr) -> (r: Option<usize>)
        ensures
            match r {
                Some(i) => i < self@.len() && self@[i as int] == a && forall|j: int|
                    0 <= j < i ==> self@[j] != a,
                None => !self@.contains(a),
            },
    {
        let n = self.items.len();
        let mut i: usize = 0;
        while i < n
            invariant
                n == self.items@.len(),
                i <= n,
                forall|j: int| 0 <= j < i ==> self.items@[j] != a,
            decreases n - i,
        {
            if self.items[i] == a {
                return Some(i);
            }
            i = i + 1;
        }
        None
    }

    /// Drop `a` if present; order of the others is kept.
    pub fn remove(&mut self, a: Addr)
        ensures
            final(self)@ == old(self)@.remove_value(a),
            !final(self)@.contains(a),
    {
        proof {
            use_type_invariant(&*self);
            old(self)@.index_of_first_ensures(a);
        }
        match self.find(a) {
            None => {},
            Some(i) => {
                let mut items: Vec<Addr> = Vec::new();
                std::mem::swap(&mut items, &mut self.items);
                let ghost s0 = items@;
                items.remove(i);
                proof {
                    s0.remove_ensures(i as int);
                    assert(s0.index_of_first(a) == Some(i as int));
                    assert forall|x: int, y: int|
                        0 <= x < y < items@.len() implies items@[x] != items@[y] by {
                        assert(items@[x] == if x < i as int { s0[x] } else { s0[x + 1] });
                        assert(items@[y] == if y < i as int { s0[y] } else { s0[y + 1] });
                    }
                    assert forall|j: int| 0 <= j < items@.len() implies items@[j] != a by {
                        assert(items@[j] == if j < i as int { s0[j] } else { s0[j + 1] });
                    }
                }
                self.items = items;
            },
        }
    }

    pub fn clear(&mut self)
        ensures
            final(self)@ == Seq::<Addr>::empty(),
    {
        let mut items: Vec<Addr> = Vec::new();
        std::mem::swap(&mut items, &mut self.items);
        items.clear();
        self.items = items;
    }
}

impl View for AddrSet {
    type V = Seq<Addr>;

    closed spec fn view(&self) -> Seq<Addr> {
        self.items@
    }
}

} // verus!
