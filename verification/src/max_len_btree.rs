//! A key-value map with a maximum number of entries, fixed at the type level,
//! kept as a vector of pairs with pairwise-distinct keys in insertion order.
//!
//! The bound makes the maximum serialized length of the contents statically
//! known. Key lookup goes through the key type's own equality; the contracts
//! speak through `eq_spec`, and say what a lookup means whenever the key
//! type's equality obeys its specification (as the primitive types' does).

use vstd::prelude::*;

use vstd::std_specs::cmp::PartialEqSpec;

use crate::bounded::CONTENTS_FULL;
use crate::max_serialized_len::MaxSerializedLen;

verus! {

/// The error value returned when a plain pair list with repeated keys is
/// offered as a map.
pub const DUPLICATE_KEY: &'static str = "duplicate key";

/// A map holding at most `N` entries.
#[derive(Debug)]
pub struct MaxLenBTreeMap<K, V, const N: usize> {
    contents: Vec<(K, V)>,
}

/// The position of the first pair whose key equals `k` under `eq_spec`, or
/// `-1` when there is none.
pub open spec fn key_index<K: PartialEqSpec, V>(s: Seq<(K, V)>, k: K) -> int
    decreases s.len(),
{
    if s.len() == 0 {
        -1
    } else if s[0].0.eq_spec(&k) {
        0
    } else {
        let r = key_index(s.skip(1), k);
        if r == -1 {
            -1
        } else {
            1 + r
        }
    }
}

/// Whether some pair's key equals `k` under `eq_spec`.
pub open spec fn has_key<K: PartialEqSpec, V>(s: Seq<(K, V)>, k: K) -> bool {
    key_index(s, k) >= 0
}

/// Pairwise-distinct keys under `eq_spec`.
pub open spec fn keys_distinct<K: PartialEqSpec, V>(s: Seq<(K, V)>) -> bool {
    forall|i: int, j: int| 0 <= i < j < s.len() ==> !(#[trigger] s[i].0.eq_spec(&s[j].0))
}

/// A found key index is in bounds and holds the key.
pub proof fn lemma_key_index<K: PartialEqSpec, V>(s: Seq<(K, V)>, k: K)
    ensures
        key_index(s, k) >= -1,
        key_index(s, k) >= 0 ==> key_index(s, k) < s.len() && s[key_index(s, k)].0.eq_spec(&k),
        key_index(s, k) == -1 ==> forall|i: int| 0 <= i < s.len() ==> !(#[trigger] s[i].0.eq_spec(
            &k,
        )),
    decreases s.len(),
{
    if s.len() > 0 && !s[0].0.eq_spec(&k) {
        lemma_key_index(s.skip(1), k);
        if key_index(s.skip(1), k) == -1 {
            assert forall|i: int| 0 <= i < s.len() implies !(#[trigger] s[i].0.eq_spec(&k)) by {
                if i > 0 {
                    assert(s.skip(1)[i - 1] == s[i]);
                    assert(!s.skip(1)[i - 1].0.eq_spec(&k));
                }
            }
        }
    }
}

/// A run of non-matching keys followed by a match pins the key index; a full
/// run of non-matching keys pins its absence.
proof fn lemma_key_index_at<K: PartialEqSpec, V>(s: Seq<(K, V)>, k: K, i: int)
    requires
        0 <= i <= s.len(),
        forall|j: int| 0 <= j < i ==> !(#[trigger] s[j].0.eq_spec(&k)),
        i == s.len() || s[i].0.eq_spec(&k),
    ensures
        i < s.len() ==> key_index(s, k) == i,
        i == s.len() ==> key_index(s, k) == -1,
    decreases i,
{
    if i == 0 {
        if s.len() > 0 && !s[0].0.eq_spec(&k) {
            lemma_key_index(s, k);
        }
    } else {
        assert(!s[0].0.eq_spec(&k));
        assert(forall|j: int| 0 <= j < i - 1 ==> !(#[trigger] s.skip(1)[j].0.eq_spec(&k)));
        if i < s.len() {
            assert(s.skip(1)[i - 1] == s[i]);
        }
        lemma_key_index_at(s.skip(1), k, i - 1);
    }
}

impl<K: PartialEqSpec, V, const N: usize> View for MaxLenBTreeMap<K, V, N> {
    type V = Seq<(K, V)>;

    closed spec fn view(&self) -> Seq<(K, V)> {
        self.contents@
    }
}

impl<K: PartialEqSpec, V, const N: usize> MaxLenBTreeMap<K, V, N> {
    /// At most `N` entries; keys pairwise distinct whenever the key type's
    /// equality obeys its specification.
    pub open spec fn inv(&self) -> bool {
        self@.len() <= N && (K::obeys_eq_spec() ==> keys_distinct(self@))
    }

    /// Creates an empty bounded map.
    pub fn new() -> (r: MaxLenBTreeMap<K, V, N>)
        ensures
            r@ == Seq::<(K, V)>::empty(),
            r.inv(),
    {
        MaxLenBTreeMap { contents: Vec::new() }
    }

    /// The number of entries held.
    pub fn len(&self) -> (r: usize)
        ensures
            r == self@.len(),
    {
        self.contents.len()
    }

    /// Whether the map holds no entries.
    pub fn is_empty(&self) -> (r: bool)
        ensures
            r == (self@.len() == 0),
    {
        self.contents.len() == 0
    }

    /// Whether the map holds its maximum number of entries.
    pub fn is_full(&self) -> (r: bool)
        ensures
            r == (self@.len() == N),
    {
        self.contents.len() == N
    }

    /// The position of `key` among the entries, if present.
    fn find(&self, key: &K) -> (r: Option<usize>)
        ensures
            match r {
                Some(i) => i < self@.len() && (K::obeys_eq_spec() ==> i == key_index(
                    self@,
                    *key,
                )),
                None => K::obeys_eq_spec() ==> key_index(self@, *key) == -1,
            },
    {
        let mut i: usize = 0;
        while i < self.contents.len()
            invariant
                i <= self@.len(),
                self@ == self.contents@,
                K::obeys_eq_spec() ==> forall|j: int|
                    0 <= j < i ==> !(#[trigger] self@[j].0.eq_spec(key)),
            decreases self@.len() - i,
        {
            if self.contents[i].0 == *key {
                proof {
                    if K::obeys_eq_spec() {
                        lemma_key_index_at(self@, *key, i as int);
                    }
                }
                return Some(i);
            }
            i = i + 1;
        }
        proof {
            if K::obeys_eq_spec() {
                lemma_key_index_at(self@, *key, i as int);
            }
        }
        None
    }

    /// Whether `key` is present.
    pub fn contains_key(&self, key: &K) -> (r: bool)
        ensures
            K::obeys_eq_spec() ==> r == has_key(self@, *key),
    {
        matches!(self.find(key), Some(_))
    }

    /// The value under `key`, if present.
    pub fn get(&self, key: &K) -> (r: Option<&V>)
        ensures
            K::obeys_eq_spec() ==> match r {
                Some(v) => has_key(self@, *key) && *v == self@[key_index(self@, *key)].1,
                None => !has_key(self@, *key),
            },
    {
        match self.find(key) {
            Some(i) => Some(&self.contents[i].1),
            None => None,
        }
    }

    /// The value under `key`, for writing, if present. Only the value behind
    /// the returned reference changes; the keys and the other entries stay.
    pub fn get_mut(&mut self, key: &K) -> (r: Option<&mut V>)
        requires
            old(self).inv(),
        ensures
            final (self).inv(),
            K::obeys_eq_spec() ==> {
                let idx = key_index(old(self)@, *key);
                match r {
                    Some(v) => has_key(old(self)@, *key) && *v == old(self)@[idx].1 && final (
                    self)@ == old(self)@.update(idx, (old(self)@[idx].0, *final (v))),
                    None => !has_key(old(self)@, *key) && final (self)@ == old(self)@,
                }
            },
            final (self)@.len() == old(self)@.len(),
    {
        match self.find(key) {
            Some(i) => {
                let pair = &mut self.contents[i];
                let v = &mut pair.1;
                Some(v)
            },
            None => None,
        }
    }

    /// Stores `value` under `key`: when the key is present, keeps the stored
    /// key, replaces the value and returns the old one; appends a new entry
    /// when the key is absent and the map is not full; reports a full map
    /// otherwise.
    pub fn insert(&mut self, key: K, value: V) -> (r: Result<Option<V>, &'static str>)
        requires
            old(self).inv(),
        ensures
            final (self).inv(),
            K::obeys_eq_spec() ==> {
                let idx = key_index(old(self)@, key);
                if has_key(old(self)@, key) {
                    r matches Ok(o) && o == Some(old(self)@[idx].1) && final (self)@ == old(
                        self,
                    )@.update(idx, (old(self)@[idx].0, value))
                } else if old(self)@.len() == N {
                    r matches Err(m) && m@ == CONTENTS_FULL@ && final (self)@ == old(self)@
                } else {
                    r matches Ok(o) && o is None && final (self)@ == old(self)@.push(
                        (key, value),
                    )
                }
            },
    {
        match self.find(&key) {
            Some(i) => {
                proof {
                    if K::obeys_eq_spec() {
                        lemma_key_index(self@, key);
                    }
                }
                let mut value = value;
                let pair = &mut self.contents[i];
                core::mem::swap(&mut pair.1, &mut value);
                proof {
                    if K::obeys_eq_spec() {
                        assert forall|a: int, b: int|
                            0 <= a < b < self.contents@.len() implies !(
                        #[trigger] self.contents@[a].0.eq_spec(&self.contents@[b].0)) by {
                            assert(self.contents@[a].0 == old(self)@[a].0);
                            assert(self.contents@[b].0 == old(self)@[b].0);
                            assert(!old(self)@[a].0.eq_spec(&old(self)@[b].0));
                        }
                    }
                }
                Ok(Some(value))
            },
            None => {
                if self.contents.len() == N {
                    Err(CONTENTS_FULL)
                } else {
                    proof {
                        if K::obeys_eq_spec() {
                            lemma_key_index(old(self)@, key);
                        }
                    }
                    self.contents.push((key, value));
                    proof {
                        if K::obeys_eq_spec() {
                            assert forall|a: int, b: int|
                                0 <= a < b < self.contents@.len() implies !(
                            #[trigger] self.contents@[a].0.eq_spec(&self.contents@[b].0)) by {
                                if b < self.contents@.len() - 1 {
                                    assert(!old(self)@[a].0.eq_spec(&old(self)@[b].0));
                                } else {
                                    assert(!old(self)@[a].0.eq_spec(&key));
                                }
                            }
                        }
                    }
                    Ok(None)
                }
            },
        }
    }

    /// Removes the entry under `key`, returning its value, if present.
    pub fn remove(&mut self, key: &K) -> (r: Option<V>)
        requires
            old(self).inv(),
        ensures
            final (self).inv(),
            K::obeys_eq_spec() ==> {
                let idx = key_index(old(self)@, *key);
                match r {
                    Some(v) => has_key(old(self)@, *key) && v == old(self)@[idx].1 && final (
                    self)@ == old(self)@.remove(idx),
                    None => !has_key(old(self)@, *key) && final (self)@ == old(self)@,
                }
            },
    {
        match self.find(key) {
            Some(i) => {
                proof {
                    if K::obeys_eq_spec() {
                        lemma_key_index(self@, *key);
                    }
                }
                let pair = self.contents.remove(i);
                proof {
                    if K::obeys_eq_spec() {
                        assert forall|a: int, b: int|
                            0 <= a < b < self.contents@.len() implies !(
                        #[trigger] self.contents@[a].0.eq_spec(&self.contents@[b].0)) by {
                            let s = old(self)@;
                            let a0: int = if a < i as int {
                                a
                            } else {
                                a + 1
                            };
                            let b0: int = if b < i as int {
                                b
                            } else {
                                b + 1
                            };
                            assert(self.contents@[a] == s[a0]);
                            assert(self.contents@[b] == s[b0]);
                            assert(!s[a0].0.eq_spec(&s[b0].0));
                        }
                    }
                }
                Some(pair.1)
            },
            None => None,
        }
    }

    /// Removes every entry.
    pub fn clear(&mut self)
        ensures
            final (self)@ == Seq::<(K, V)>::empty(),
            final (self).inv(),
    {
        self.contents.clear();
    }

    /// The entries, in insertion order.
    pub fn contents(&self) -> (r: &Vec<(K, V)>)
        ensures
            r@ == self@,
    {
        &self.contents
    }

    /// Wraps a plain pair list, unless it holds more than `N` entries or
    /// repeats a key.
    pub fn try_from(pairs: Vec<(K, V)>) -> (r: Result<MaxLenBTreeMap<K, V, N>, &'static str>)
        ensures
            match r {
                Ok(m) => m@ == pairs@ && m.inv() && pairs@.len() <= N,
                Err(e) => (e@ == CONTENTS_FULL@ && pairs@.len() > N) || (e@ == DUPLICATE_KEY@
                    && (K::obeys_eq_spec() ==> !keys_distinct(pairs@))),
            },
    {
        if pairs.len() > N {
            return Err(CONTENTS_FULL);
        }
        let n = pairs.len();
        let mut b: usize = 1;
        while b < n
            invariant
                n == pairs@.len(),
                K::obeys_eq_spec() ==> forall|i: int, j: int|
                    0 <= i < j < b ==> !(#[trigger] pairs@[i].0.eq_spec(&pairs@[j].0)),
            decreases n - b,
        {
            let mut a: usize = 0;
            while a < b
                invariant
                    n == pairs@.len(),
                    a <= b < n,
                    K::obeys_eq_spec() ==> forall|i: int|
                        0 <= i < a ==> !(#[trigger] pairs@[i].0.eq_spec(&pairs@[b as int].0)),
                decreases b - a,
            {
                if pairs[a].0 == pairs[b].0 {
                    return Err(DUPLICATE_KEY);
                }
                a = a + 1;
            }
            b = b + 1;
        }
        Ok(MaxLenBTreeMap { contents: pairs })
    }
}

/// Four bytes of entry count, then at most `N` serialized entries.
impl<
    K: PartialEqSpec + MaxSerializedLen,
    V: MaxSerializedLen,
    const N: usize,
> MaxSerializedLen for MaxLenBTreeMap<K, V, N> {
    open spec fn spec_max_serialized_len() -> nat {
        (4 + N * (K::spec_max_serialized_len() + V::spec_max_serialized_len())) as nat
    }

    fn max_serialized_len() -> (r: usize) {
        if N == 0 {
            4
        } else {
            proof {
                assert(K::spec_max_serialized_len() + V::spec_max_serialized_len() <= N * (
                K::spec_max_serialized_len() + V::spec_max_serialized_len()))
                    by (nonlinear_arith)
                    requires
                        N >= 1,
                {
                }
            }
            let k = K::max_serialized_len();
            let v = V::max_serialized_len();
            proof {
                assert(N * (k + v) == N * (K::spec_max_serialized_len()
                    + V::spec_max_serialized_len()));
            }
            4 + N * (k + v)
        }
    }
}

} // verus!
