//! The identity map one enumeration pass produces: composite key to
//! persistent device identity, keys unique within the pass.
//!
//! The platform's own map type is not used here; the map is a vector of
//! pairs with a uniqueness invariant, looked up linearly, which matches
//! the ordered single-pass way the correlator consumes it.

use vstd::prelude::*;

verus! {

/// One (composite key, persistent identity) pair.
pub struct IdPair {
    pub key: String,
    pub id: String,
}

impl View for IdPair {
    type V = (Seq<char>, Seq<char>);

    open spec fn view(&self) -> (Seq<char>, Seq<char>) {
        (self.key@, self.id@)
    }
}

/// The first index whose key is `k`, or -1.
pub open spec fn spec_find_key(m: Seq<(Seq<char>, Seq<char>)>, k: Seq<char>) -> int
    decreases m.len(),
{
    if m.len() == 0 {
        -1
    } else if m[0].0 == k {
        0
    } else {
        let r = spec_find_key(m.drop_first(), k);
        if r < 0 {
            -1
        } else {
            r + 1
        }
    }
}

/// What `spec_find_key` finds is the first occurrence; -1 means none.
pub proof fn lemma_find_key(m: Seq<(Seq<char>, Seq<char>)>, k: Seq<char>)
    ensures
        spec_find_key(m, k) >= 0 ==> {
            &&& spec_find_key(m, k) < m.len()
            &&& m[spec_find_key(m, k)].0 == k
            &&& forall|i: int| 0 <= i < spec_find_key(m, k) ==> (#[trigger] m[i]).0 != k
        },
        spec_find_key(m, k) < 0 ==> forall|i: int| 0 <= i < m.len() ==> (#[trigger] m[i]).0 != k,
    decreases m.len(),
{
    if m.len() > 0 && m[0].0 != k {
        lemma_find_key(m.drop_first(), k);
        let md = m.drop_first();
        let r = spec_find_key(md, k);
        if r >= 0 {
            assert(md[r] == m[r + 1]);
            assert forall|i: int| 0 <= i < r + 1 implies (#[trigger] m[i]).0 != k by {
                if i > 0 {
                    assert(md[i - 1] == m[i]);
                    assert(md[i - 1].0 != k);
                }
            }
        } else {
            assert forall|i: int| 0 <= i < m.len() implies (#[trigger] m[i]).0 != k by {
                if i > 0 {
                    assert(md[i - 1] == m[i]);
                    assert(md[i - 1].0 != k);
                }
            }
        }
    }
}

/// Map-style insertion: an existing key's identity is replaced, a new key
/// is appended.
pub open spec fn spec_insert(
    m: Seq<(Seq<char>, Seq<char>)>,
    k: Seq<char>,
    v: Seq<char>,
) -> Seq<(Seq<char>, Seq<char>)> {
    let j = spec_find_key(m, k);
    if j >= 0 {
        m.update(j, (k, v))
    } else {
        m.push((k, v))
    }
}

/// Keys pairwise distinct.
pub open spec fn spec_keys_unique(m: Seq<(Seq<char>, Seq<char>)>) -> bool {
    forall|i: int, j: int| 0 <= i < j < m.len() ==> (#[trigger] m[i]).0 != (#[trigger] m[j]).0
}

/// The identity map of one enumeration pass.
pub struct IdentityMap {
    pairs: Vec<IdPair>,
}

impl View for IdentityMap {
    type V = Seq<(Seq<char>, Seq<char>)>;

    closed spec fn view(&self) -> Seq<(Seq<char>, Seq<char>)> {
        self.pairs@.map_values(|p: IdPair| p@)
    }
}

impl IdentityMap {
    /// Keys are unique within the map.
    pub open spec fn wf(&self) -> bool {
        spec_keys_unique(self@)
    }

    /// An empty map.
    pub fn new() -> (m: IdentityMap)
        ensures
            m@ == Seq::<(Seq<char>, Seq<char>)>::empty(),
            m.wf(),
    {
        let m = IdentityMap { pairs: Vec::new() };
        proof {
            assert(m@ =~= Seq::<(Seq<char>, Seq<char>)>::empty());
        }
        m
    }

    /// The number of identities held.
    pub fn len(&self) -> (n: usize)
        ensures
            n == self@.len(),
    {
        self.pairs.len()
    }

    /// The first index whose key is `k`, linearly.
    fn find(&self, k: &String) -> (r: Option<usize>)
        ensures
            spec_find_key(self@, k@) >= 0 ==> r is Some && r->Some_0 as int == spec_find_key(
                self@,
                k@,
            ) && spec_find_key(self@, k@) < self@.len(),
            spec_find_key(self@, k@) < 0 ==> r is None,
    {
        proof {
            lemma_find_key(self@, k@);
        }
        let mut i: usize = 0;
        while i < self.pairs.len()
            invariant
                0 <= i <= self@.len(),
                self@.len() == self.pairs@.len(),
                forall|j: int| 0 <= j < i ==> (#[trigger] self@[j]).0 != k@,
                spec_find_key(self@, k@) >= 0 ==> spec_find_key(self@, k@) < self@.len(),
                spec_find_key(self@, k@) >= 0 ==> self@[spec_find_key(self@, k@)].0 == k@,
                spec_find_key(self@, k@) < 0 ==> forall|j: int|
                    0 <= j < self@.len() ==> (#[trigger] self@[j]).0 != k@,
                spec_find_key(self@, k@) >= 0 ==> forall|j: int|
                    0 <= j < spec_find_key(self@, k@) ==> (#[trigger] self@[j]).0 != k@,
            decreases self@.len() - i,
        {
            if self.pairs[i].key == *k {
                proof {
                    assert(self@[i as int].0 == k@);
                    let j0 = spec_find_key(self@, k@);
                    if j0 < 0 {
                        assert(self@[i as int].0 != k@);
                    } else if j0 < i {
                        assert(self@[j0].0 != k@);
                    } else if j0 > i {
                        assert(self@[i as int].0 != k@);
                    }
                }
                return Some(i);
            }
            i += 1;
        }
        None
    }

    /// Inserts an identity under a key; an existing key's identity is
    /// replaced, a new key appended.
    pub fn insert(&mut self, key: String, id: String)
        requires
            old(self).wf(),
        ensures
            final(self)@ == spec_insert(old(self)@, key@, id@),
            final(self).wf(),
    {
        let ghost m0 = self@;
        let ghost kv = key@;
        let ghost vv = id@;
        proof {
            lemma_find_key(m0, kv);
        }
        match self.find(&key) {
            Some(j) => {
                self.pairs.set(j, IdPair { key, id });
                proof {
                    let j0 = spec_find_key(m0, kv);
                    assert(self@ =~= m0.update(j0, (kv, vv)));
                    assert forall|a: int, b: int| 0 <= a < b < self@.len() implies (
                    #[trigger] self@[a]).0 != (#[trigger] self@[b]).0 by {
                        assert(m0[a].0 != m0[b].0);
                        assert(m0[j0].0 == kv);
                    }
                }
            },
            None => {
                self.pairs.push(IdPair { key, id });
                proof {
                    assert(self@ =~= m0.push((kv, vv)));
                    lemma_find_key(m0, kv);
                    assert forall|a: int, b: int| 0 <= a < b < self@.len() implies (
                    #[trigger] self@[a]).0 != (#[trigger] self@[b]).0 by {
                        if b < m0.len() {
                            assert(m0[a].0 != m0[b].0);
                        } else {
                            assert(self@[b].0 == kv);
                            assert(m0[a].0 != kv);
                        }
                    }
                }
            },
        }
    }

    /// Looks a key up and removes it, returning its identity; the map is
    /// unchanged when the key is absent.
    pub fn remove(&mut self, key: &String) -> (r: Option<String>)
        requires
            old(self).wf(),
        ensures
            final(self).wf(),
            ({
                let j = spec_find_key(old(self)@, key@);
                if j >= 0 {
                    &&& r is Some
                    &&& r->Some_0@ == old(self)@[j].1
                    &&& final(self)@ == old(self)@.remove(j)
                } else {
                    &&& r is None
                    &&& final(self)@ == old(self)@
                }
            }),
    {
        let ghost m0 = self@;
        let ghost kv = key@;
        proof {
            lemma_find_key(m0, kv);
        }
        let ghost p0 = self.pairs@;
        match self.find(key) {
            Some(j) => {
                let p = self.pairs.remove(j);
                proof {
                    let j0 = spec_find_key(m0, kv);
                    p0.remove_ensures(j0);
                    m0.remove_ensures(j0);
                    assert forall|a: int| 0 <= a < self@.len() implies self@[a] == m0.remove(
                        j0,
                    )[a] by {
                        assert(self.pairs@ == p0.remove(j0));
                        assert(self@[a] == self.pairs@[a]@);
                        if a < j0 {
                            assert(p0.remove(j0)[a] == p0[a]);
                            assert(m0.remove(j0)[a] == m0[a]);
                            assert(m0[a] == p0[a]@);
                        } else {
                            assert(p0.remove(j0)[a] == p0[a + 1]);
                            assert(m0.remove(j0)[a] == m0[a + 1]);
                            assert(m0[a + 1] == p0[a + 1]@);
                        }
                    }
                    assert(self@ =~= m0.remove(j0));
                    assert forall|a: int, b: int| 0 <= a < b < self@.len() implies (
                    #[trigger] self@[a]).0 != (#[trigger] self@[b]).0 by {
                        assert(self@[a] == if a < j0 { m0[a] } else { m0[a + 1] });
                        assert(self@[b] == if b < j0 { m0[b] } else { m0[b + 1] });
                    }
                }
                Some(p.id)
            },
            None => None,
        }
    }

    /// Hands the remaining pairs out, in map order.
    pub fn into_pairs(self) -> (v: Vec<IdPair>)
        ensures
            v@.map_values(|p: IdPair| p@) == self@,
    {
        self.pairs
    }
}

} // verus!
