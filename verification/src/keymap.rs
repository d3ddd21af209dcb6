//! A small association map from `usize` keys to copyable values, kept as a
//! vector of pairs with pairwise-distinct keys. Its view is a `Map`, and the
//! underlying pair sequence is exposed so that callers can walk the entries.

use vstd::prelude::*;

verus! {

/// Interpretation of a pair sequence as a map: later pairs win, though with
/// distinct keys the order never matters.
pub open spec fn pairs_to_map<T>(s: Seq<(usize, T)>) -> Map<usize, T>
    decreases s.len(),
{
    if s.len() == 0 {
        Map::empty()
    } else {
        pairs_to_map(s.drop_last()).insert(s.last().0, s.last().1)
    }
}

/// No two pairs carry the same key.
pub open spec fn keys_unique<T>(s: Seq<(usize, T)>) -> bool {
    forall|i: int, j: int| 0 <= i < j < s.len() ==> (#[trigger] s[i]).0 != (#[trigger] s[j]).0
}

/// A key is in the map exactly when some pair carries it.
pub proof fn lemma_pairs_to_map_contains<T>(s: Seq<(usize, T)>, k: usize)
    ensures
        pairs_to_map(s).contains_key(k) <==> (exists|i: int|
            0 <= i < s.len() && (#[trigger] s[i]).0 == k),
    decreases s.len(),
{
    if s.len() > 0 {
        lemma_pairs_to_map_contains(s.drop_last(), k);
        if s.last().0 == k {
            assert((s[s.len() - 1]).0 == k);
        } else {
            if exists|i: int| 0 <= i < s.len() && (#[trigger] s[i]).0 == k {
                let i = choose|i: int| 0 <= i < s.len() && (#[trigger] s[i]).0 == k;
                assert((s.drop_last()[i]).0 == k);
            }
            if exists|i: int| 0 <= i < s.drop_last().len() && (#[trigger] s.drop_last()[i]).0
                == k {
                let i = choose|i: int|
                    0 <= i < s.drop_last().len() && (#[trigger] s.drop_last()[i]).0 == k;
                assert((s[i]).0 == k);
            }
        }
    }
}

/// With distinct keys, each pair's key looks up that pair's value.
pub proof fn lemma_pairs_to_map_index<T>(s: Seq<(usize, T)>, i: int)
    requires
        keys_unique(s),
        0 <= i < s.len(),
    ensures
        pairs_to_map(s).contains_key((s[i]).0),
        pairs_to_map(s)[(s[i]).0] == (s[i]).1,
    decreases s.len(),
{
    if i < s.len() - 1 {
        assert(keys_unique(s.drop_last())) by {
            assert forall|a: int, b: int| 0 <= a < b < s.drop_last().len() implies (#[trigger] s
                .drop_last()[a]).0 != (#[trigger] s.drop_last()[b]).0 by {
                assert((s[a]).0 != (s[b]).0);
            }
        }
        lemma_pairs_to_map_index(s.drop_last(), i);
        assert((s[i]).0 != (s[s.len() - 1]).0);
    }
}

/// Removing the pair at one index removes exactly its key from the map.
pub proof fn lemma_pairs_to_map_remove<T>(s: Seq<(usize, T)>, i: int)
    requires
        keys_unique(s),
        0 <= i < s.len(),
    ensures
        keys_unique(s.remove(i)),
        pairs_to_map(s.remove(i)) == pairs_to_map(s).remove((s[i]).0),
    decreases s.len(),
{
    let k = (s[i]).0;
    assert(keys_unique(s.remove(i))) by {
        assert forall|a: int, b: int| 0 <= a < b < s.remove(i).len() implies (#[trigger] s.remove(
            i,
        )[a]).0 != (#[trigger] s.remove(i)[b]).0 by {
            let a0: int = if a < i {
                a
            } else {
                a + 1
            };
            let b0: int = if b < i {
                b
            } else {
                b + 1
            };
            assert(s.remove(i)[a] == s[a0]);
            assert(s.remove(i)[b] == s[b0]);
            assert((s[a0]).0 != (s[b0]).0);
        }
    }
    if i == s.len() - 1 {
        assert(s.remove(i) =~= s.drop_last());
        lemma_pairs_to_map_contains(s.drop_last(), k);
        assert(forall|j: int| 0 <= j < s.len() - 1 ==> (#[trigger] s[j]).0 != k);
        assert(!pairs_to_map(s.drop_last()).contains_key(k)) by {
            if exists|j: int| 0 <= j < s.drop_last().len() && (#[trigger] s.drop_last()[j]).0
                == k {
                let j = choose|j: int|
                    0 <= j < s.drop_last().len() && (#[trigger] s.drop_last()[j]).0 == k;
                assert((s[j]).0 == k);
            }
        }
        assert(pairs_to_map(s.remove(i)) =~= pairs_to_map(s).remove(k));
    } else {
        assert(keys_unique(s.drop_last())) by {
            assert forall|a: int, b: int| 0 <= a < b < s.drop_last().len() implies (#[trigger] s
                .drop_last()[a]).0 != (#[trigger] s.drop_last()[b]).0 by {
                assert((s[a]).0 != (s[b]).0);
            }
        }
        assert(s.remove(i).drop_last() =~= s.drop_last().remove(i));
        assert(s.remove(i).last() == s.last());
        lemma_pairs_to_map_remove(s.drop_last(), i);
        assert(k != (s[s.len() - 1]).0);
        assert(pairs_to_map(s.drop_last()).remove(k).insert(s.last().0, s.last().1)
            =~= pairs_to_map(s.drop_last()).insert(s.last().0, s.last().1).remove(k));
        assert(pairs_to_map(s.remove(i)) == pairs_to_map(s.remove(i).drop_last()).insert(
            s.remove(i).last().0,
            s.remove(i).last().1,
        ));
    }
}

/// The association map. Keys are pairwise distinct at all times.
pub struct KeyMap<T> {
    pairs: Vec<(usize, T)>,
}

impl<T> View for KeyMap<T> {
    type V = Map<usize, T>;

    closed spec fn view(&self) -> Map<usize, T> {
        pairs_to_map(self.pairs@)
    }
}

impl<T> KeyMap<T> {
    #[verifier::type_invariant]
    pub closed spec fn wf(self) -> bool {
        keys_unique(self.pairs@)
    }

    /// The underlying pair sequence, for walking the entries.
    pub closed spec fn pairs_view(&self) -> Seq<(usize, T)> {
        self.pairs@
    }

    /// Every pair is an entry of the map, every key of the map is carried by
    /// some pair, and pairs carry distinct keys.
    pub proof fn lemma_view(&self)
        requires
            self.wf(),
        ensures
            forall|i: int|
                0 <= i < self.pairs_view().len() ==> self@.contains_key(
                    (#[trigger] self.pairs_view()[i]).0,
                ) && self@[(self.pairs_view()[i]).0] == (self.pairs_view()[i]).1,
            forall|k: usize|
                #[trigger] self@.contains_key(k) ==> exists|i: int|
                    0 <= i < self.pairs_view().len() && (#[trigger] self.pairs_view()[i]).0 == k,
            keys_unique(self.pairs_view()),
    {
        assert forall|i: int| 0 <= i < self.pairs_view().len() implies self@.contains_key(
            (#[trigger] self.pairs_view()[i]).0,
        ) && self@[(self.pairs_view()[i]).0] == (self.pairs_view()[i]).1 by {
            lemma_pairs_to_map_index(self.pairs@, i);
        }
        assert forall|k: usize| #[trigger] self@.contains_key(k) implies exists|i: int|
            0 <= i < self.pairs_view().len() && (#[trigger] self.pairs_view()[i]).0 == k by {
            lemma_pairs_to_map_contains(self.pairs@, k);
            let i = choose|i: int| 0 <= i < self.pairs@.len() && (#[trigger] self.pairs@[i]).0
                == k;
            assert((self.pairs_view()[i]).0 == k);
        }
    }

    /// An empty map.
    pub fn new() -> (r: Self)
        ensures
            r@ == Map::<usize, T>::empty(),
            r.pairs_view() == Seq::<(usize, T)>::empty(),
    {
        KeyMap { pairs: Vec::new() }
    }

    /// Whether a key is present.
    pub fn contains(&self, k: usize) -> (r: bool)
        ensures
            r == self@.contains_key(k),
    {
        proof {
            lemma_pairs_to_map_contains(self.pairs@, k);
        }
        let n: usize = self.pairs.len();
        let mut i: usize = 0;
        while i < n
            invariant
                n == self.pairs@.len(),
                0 <= i <= n,
                forall|j: int| 0 <= j < i ==> (#[trigger] self.pairs@[j]).0 != k,
            decreases n - i,
        {
            if self.pairs[i].0 == k {
                proof {
                    lemma_pairs_to_map_contains(self.pairs@, k);
                    assert((self.pairs@[i as int]).0 == k);
                }
                return true;
            }
            i = i + 1;
        }
        proof {
            lemma_pairs_to_map_contains(self.pairs@, k);
        }
        false
    }

    /// The number of entries.
    pub fn num_pairs(&self) -> (r: usize)
        ensures
            r == self.pairs_view().len(),
    {
        self.pairs.len()
    }
}

impl<T: Copy> KeyMap<T> {
    /// Look a key up.
    pub fn get(&self, k: usize) -> (r: Option<T>)
        ensures
            match r {
                Some(v) => self@.contains_key(k) && v == self@[k],
                None => !self@.contains_key(k),
            },
    {
        proof {
            use_type_invariant(self);
            lemma_pairs_to_map_contains(self.pairs@, k);
        }
        let n: usize = self.pairs.len();
        let mut i: usize = 0;
        while i < n
            invariant
                n == self.pairs@.len(),
                0 <= i <= n,
                keys_unique(self.pairs@),
                forall|j: int| 0 <= j < i ==> (#[trigger] self.pairs@[j]).0 != k,
            decreases n - i,
        {
            if self.pairs[i].0 == k {
                proof {
                    lemma_pairs_to_map_index(self.pairs@, i as int);
                }
                return Some(self.pairs[i].1);
            }
            i = i + 1;
        }
        proof {
            lemma_pairs_to_map_contains(self.pairs@, k);
        }
        None
    }

    /// The pair at one position of the underlying sequence.
    pub fn pair_at(&self, i: usize) -> (r: (usize, T))
        requires
            i < self.pairs_view().len(),
        ensures
            r == self.pairs_view()[i as int],
            self@.contains_key(r.0),
            self@[r.0] == r.1,
    {
        proof {
            use_type_invariant(self);
            lemma_pairs_to_map_index(self.pairs@, i as int);
        }
        self.pairs[i]
    }

    /// Add an entry under a fresh key.
    pub fn insert(&mut self, k: usize, v: T)
        requires
            !old(self)@.contains_key(k),
        ensures
            final(self)@ == old(self)@.insert(k, v),
            final(self).pairs_view() == old(self).pairs_view().push((k, v)),
    {
        proof {
            use_type_invariant(&*self);
            lemma_pairs_to_map_contains(self.pairs@, k);
            assert(forall|j: int| 0 <= j < self.pairs@.len() ==> (#[trigger] self.pairs@[j]).0
                != k);
            assert(keys_unique(self.pairs@.push((k, v)))) by {
                let s = self.pairs@;
                assert forall|a: int, b: int| 0 <= a < b < s.push((k, v)).len() implies (
                #[trigger] s.push((k, v))[a]).0 != (#[trigger] s.push((k, v))[b]).0 by {
                    if b < s.len() {
                        assert((s[a]).0 != (s[b]).0);
                    } else {
                        assert(s.push((k, v))[b] == (k, v));
                        assert(s.push((k, v))[a] == s[a]);
                    }
                }
            }
        }
        let mut pairs: Vec<(usize, T)> = Vec::new();
        core::mem::swap(&mut pairs, &mut self.pairs);
        pairs.push((k, v));
        proof {
            assert(pairs@.drop_last() =~= old(self).pairs@);
        }
        self.pairs = pairs;
    }

    /// Remove the entry under a key.
    pub fn remove(&mut self, k: usize)
        requires
            old(self)@.contains_key(k),
        ensures
            final(self)@ == old(self)@.remove(k),
    {
        proof {
            use_type_invariant(&*self);
            lemma_pairs_to_map_contains(self.pairs@, k);
        }
        let n: usize = self.pairs.len();
        let mut i: usize = 0;
        while i < n
            invariant
                n == self.pairs@.len(),
                0 <= i <= n,
                self == old(self),
                keys_unique(self.pairs@),
                old(self)@.contains_key(k),
                forall|j: int| 0 <= j < i ==> (#[trigger] self.pairs@[j]).0 != k,
            decreases n - i,
        {
            if self.pairs[i].0 == k {
                proof {
                    lemma_pairs_to_map_remove(self.pairs@, i as int);
                }
                let mut pairs: Vec<(usize, T)> = Vec::new();
                core::mem::swap(&mut pairs, &mut self.pairs);
                pairs.remove(i);
                self.pairs = pairs;
                return ;
            }
            i = i + 1;
        }
        proof {
            lemma_pairs_to_map_contains(self.pairs@, k);
            assert(false);
        }
    }

    /// Add or replace the entry under a key.
    pub fn set_value(&mut self, k: usize, v: T)
        ensures
            final(self)@ == old(self)@.insert(k, v),
    {
        if self.contains(k) {
            self.remove(k);
            self.insert(k, v);
            proof {
                assert(old(self)@.remove(k).insert(k, v) =~= old(self)@.insert(k, v));
            }
        } else {
            self.insert(k, v);
        }
    }

    /// An entry-for-entry copy.
    pub fn copied(&self) -> (r: Self)
        ensures
            r@ == self@,
            r.pairs_view() == self.pairs_view(),
    {
        proof {
            use_type_invariant(self);
        }
        let n: usize = self.pairs.len();
        let mut v: Vec<(usize, T)> = Vec::new();
        let mut i: usize = 0;
        while i < n
            invariant
                n == self.pairs@.len(),
                0 <= i <= n,
                v@ == self.pairs@.subrange(0, i as int),
            decreases n - i,
        {
            v.push(self.pairs[i]);
            proof {
                assert(v@ =~= self.pairs@.subrange(0, i + 1));
            }
            i = i + 1;
        }
        proof {
            assert(v@ =~= self.pairs@);
        }
        KeyMap { pairs: v }
    }
}

} // verus!
