//! An ordered map from strings to values, kept as a sequence of entries that
//! is strictly increasing in its keys.

use vstd::prelude::*;
use crate::text::{compare, str_lt, KeyOrder, lemma_str_lt_asymmetric, lemma_str_lt_transitive, lemma_str_lt_total};

verus! {

/// The entries are strictly increasing in their keys; in particular no key
/// occurs twice.
pub open spec fn sorted<V>(s: Seq<(Seq<char>, V)>) -> bool {
    forall|i: int, j: int| 0 <= i < j < s.len() ==> str_lt(#[trigger] s[i].0, #[trigger] s[j].0)
}

/// Some entry has the key `k`.
pub open spec fn has_key<V>(s: Seq<(Seq<char>, V)>, k: Seq<char>) -> bool {
    exists|i: int| 0 <= i < s.len() && #[trigger] s[i].0 == k
}

/// The position of key `k`, where `has_key(s, k)`.
pub open spec fn index_of<V>(s: Seq<(Seq<char>, V)>, k: Seq<char>) -> int {
    choose|i: int| 0 <= i < s.len() && #[trigger] s[i].0 == k
}

/// The value under key `k`, if there is one.
pub open spec fn lookup<V>(s: Seq<(Seq<char>, V)>, k: Seq<char>) -> Option<V> {
    if has_key(s, k) {
        Some(s[index_of(s, k)].1)
    } else {
        None
    }
}

/// Every key before position `p` is below `k` and none from `p` on is.
pub open spec fn is_rank<V>(s: Seq<(Seq<char>, V)>, k: Seq<char>, p: int) -> bool {
    &&& 0 <= p <= s.len()
    &&& forall|i: int| 0 <= i < p ==> str_lt(#[trigger] s[i].0, k)
    &&& forall|i: int| p <= i < s.len() ==> !str_lt(#[trigger] s[i].0, k)
}

/// The position at which key `k` stands or would be inserted.
pub open spec fn rank<V>(s: Seq<(Seq<char>, V)>, k: Seq<char>) -> int {
    choose|p: int| is_rank(s, k, p)
}

/// The map with `k` bound to `v`: an existing entry is overwritten in place,
/// a new one is inserted where the order puts it.
pub open spec fn put<V>(s: Seq<(Seq<char>, V)>, k: Seq<char>, v: V) -> Seq<(Seq<char>, V)> {
    if has_key(s, k) {
        s.update(index_of(s, k), (k, v))
    } else {
        s.insert(rank(s, k), (k, v))
    }
}

/// The map without key `k`.
pub open spec fn del<V>(s: Seq<(Seq<char>, V)>, k: Seq<char>) -> Seq<(Seq<char>, V)> {
    if has_key(s, k) {
        s.remove(index_of(s, k))
    } else {
        s
    }
}

/// In a sorted map each key stands at one position only.
pub proof fn lemma_index_of<V>(s: Seq<(Seq<char>, V)>, i: int)
    requires
        sorted(s),
        0 <= i < s.len(),
    ensures
        has_key(s, s[i].0),
        index_of(s, s[i].0) == i,
        lookup(s, s[i].0) == Some(s[i].1),
{
    let j = index_of(s, s[i].0);
    if j < i {
        lemma_str_lt_asymmetric(s[j].0, s[i].0);
    } else if i < j {
        lemma_str_lt_asymmetric(s[i].0, s[j].0);
    }
}

/// A key has one rank only.
pub proof fn lemma_rank<V>(s: Seq<(Seq<char>, V)>, k: Seq<char>, p: int)
    requires
        is_rank(s, k, p),
    ensures
        rank(s, k) == p,
{
    let q = rank(s, k);
    if q < p {
        assert(str_lt(s[q].0, k));
    } else if p < q {
        assert(str_lt(s[p].0, k));
    }
}

/// Every sorted map has a rank for every key.
pub proof fn lemma_rank_exists<V>(s: Seq<(Seq<char>, V)>, k: Seq<char>)
    requires
        sorted(s),
    ensures
        is_rank(s, k, rank(s, k)),
    decreases s.len(),
{
    if s.len() == 0 {
        assert(is_rank(s, k, 0));
    } else {
        let t = s.drop_last();
        assert(sorted(t));
        lemma_rank_exists(t, k);
        let p = rank(t, k);
        let last: int = s.len() - 1;
        if str_lt(s[last].0, k) {
            assert forall|i: int| 0 <= i < s.len() implies str_lt(#[trigger] s[i].0, k) by {
                if i < last {
                    lemma_str_lt_transitive(s[i].0, s[last].0, k);
                }
            }
            assert(is_rank(s, k, s.len() as int));
        } else {
            assert forall|i: int| 0 <= i < p implies str_lt(#[trigger] s[i].0, k) by {
                assert(s[i] == t[i]);
            }
            assert forall|i: int| p <= i < s.len() implies !str_lt(#[trigger] s[i].0, k) by {
                if i < last {
                    assert(s[i] == t[i]);
                }
            }
            assert(is_rank(s, k, p));
        }
    }
}

/// Binding a key keeps the order, binds the key, and leaves every other key
/// as it was.
pub proof fn lemma_put_sorted<V>(s: Seq<(Seq<char>, V)>, k: Seq<char>, v: V)
    requires
        sorted(s),
    ensures
        sorted(put(s, k, v)),
        has_key(put(s, k, v), k),
        lookup(put(s, k, v), k) == Some(v),
        forall|o: Seq<char>| o != k ==> has_key(put(s, k, v), o) == has_key(s, o),
        forall|o: Seq<char>| o != k ==> lookup(put(s, k, v), o) == lookup(s, o),
{
    let t = put(s, k, v);
    if has_key(s, k) {
        let i = index_of(s, k);
        assert forall|a: int, b: int| 0 <= a < b < t.len() implies str_lt(
            #[trigger] t[a].0,
            #[trigger] t[b].0,
        ) by {
            assert(t[a].0 == s[a].0);
            assert(t[b].0 == s[b].0);
        }
        assert(t[i].0 == k);
        lemma_index_of(t, i);
        assert forall|o: Seq<char>| o != k implies has_key(t, o) == has_key(s, o) && lookup(t, o)
            == lookup(s, o) by {
            if has_key(s, o) {
                let j = index_of(s, o);
                assert(t[j] == s[j]);
                lemma_index_of(s, j);
                lemma_index_of(t, j);
            }
            if has_key(t, o) {
                let j = index_of(t, o);
                assert(t[j] == s[j]);
                lemma_index_of(s, j);
                lemma_index_of(t, j);
            }
        }
    } else {
        lemma_rank_exists(s, k);
        let p = rank(s, k);
        assert forall|i: int| p <= i < s.len() implies str_lt(k, #[trigger] s[i].0) by {
            assert(s[i].0 != k);
            lemma_str_lt_total(k, s[i].0);
        }
        assert forall|a: int, b: int| 0 <= a < b < t.len() implies str_lt(
            #[trigger] t[a].0,
            #[trigger] t[b].0,
        ) by {
            if b < p {
                assert(t[a] == s[a] && t[b] == s[b]);
            } else if b == p {
                assert(t[a] == s[a]);
            } else if a < p {
                assert(t[a] == s[a] && t[b] == s[b - 1]);
            } else if a == p {
                assert(t[b] == s[b - 1]);
            } else {
                assert(t[a] == s[a - 1] && t[b] == s[b - 1]);
            }
        }
        assert(t[p].0 == k);
        lemma_index_of(t, p);
        assert forall|o: Seq<char>| o != k implies has_key(t, o) == has_key(s, o) && lookup(t, o)
            == lookup(s, o) by {
            if has_key(s, o) {
                let j = index_of(s, o);
                let j2 = if j < p { j } else { j + 1 };
                assert(t[j2] == s[j]);
                lemma_index_of(s, j);
                lemma_index_of(t, j2);
            }
            if has_key(t, o) {
                let j = index_of(t, o);
                let j2 = if j < p { j } else { j - 1 };
                assert(t[j] == s[j2]);
                lemma_index_of(s, j2);
                lemma_index_of(t, j);
            }
        }
    }
}

/// Taking a key out keeps the order, frees the key, and leaves every other
/// key as it was.
pub proof fn lemma_del_sorted<V>(s: Seq<(Seq<char>, V)>, k: Seq<char>)
    requires
        sorted(s),
    ensures
        sorted(del(s, k)),
        !has_key(del(s, k), k),
        forall|o: Seq<char>| o != k ==> has_key(del(s, k), o) == has_key(s, o),
        forall|o: Seq<char>| o != k ==> lookup(del(s, k), o) == lookup(s, o),
{
    let t = del(s, k);
    if has_key(s, k) {
        let i = index_of(s, k);
        lemma_index_of(s, i);
        assert forall|a: int, b: int| 0 <= a < b < t.len() implies str_lt(
            #[trigger] t[a].0,
            #[trigger] t[b].0,
        ) by {
            let a2 = if a < i { a } else { a + 1 };
            let b2 = if b < i { b } else { b + 1 };
            assert(t[a] == s[a2] && t[b] == s[b2]);
        }
        if has_key(t, k) {
            let j = index_of(t, k);
            let j2 = if j < i { j } else { j + 1 };
            assert(t[j] == s[j2]);
            lemma_index_of(s, j2);
        }
        assert forall|o: Seq<char>| o != k implies has_key(t, o) == has_key(s, o) && lookup(t, o)
            == lookup(s, o) by {
            if has_key(s, o) {
                let j = index_of(s, o);
                let j2 = if j < i { j } else { j - 1 };
                assert(t[j2] == s[j]);
                lemma_index_of(s, j);
                lemma_index_of(t, j2);
            }
            if has_key(t, o) {
                let j = index_of(t, o);
                let j2 = if j < i { j } else { j + 1 };
                assert(t[j] == s[j2]);
                lemma_index_of(s, j2);
                lemma_index_of(t, j);
            }
        }
    }
}

/// Taking an entry out and binding its key again gives the map with that
/// entry's value replaced.
pub proof fn lemma_put_after_remove<V>(s: Seq<(Seq<char>, V)>, i: int, v: V)
    requires
        sorted(s),
        0 <= i < s.len(),
    ensures
        put(s.remove(i), s[i].0, v) == s.update(i, (s[i].0, v)),
        put(s, s[i].0, v) == s.update(i, (s[i].0, v)),
{
    let k = s[i].0;
    let t = s.remove(i);
    lemma_index_of(s, i);
    if has_key(t, k) {
        let j = index_of(t, k);
        let j2 = if j < i { j } else { j + 1 };
        assert(t[j] == s[j2]);
        lemma_index_of(s, j2);
    }
    assert forall|j: int| 0 <= j < i implies str_lt(#[trigger] t[j].0, k) by {
        assert(t[j] == s[j]);
    }
    assert forall|j: int| i <= j < t.len() implies !str_lt(#[trigger] t[j].0, k) by {
        assert(t[j] == s[j + 1]);
        lemma_str_lt_asymmetric(k, s[j + 1].0);
    }
    lemma_rank(t, k, i);
    assert(t.insert(i, (k, v)) =~= s.update(i, (k, v)));
}

/// `t` is one of the first `n` of `names`.
pub open spec fn among(names: Seq<String>, n: int, t: Seq<char>) -> bool {
    exists|j: int| 0 <= j < n && (#[trigger] names[j])@ == t
}

/// The keys of `s` are the first `n` of `names`, each of them and no other.
pub open spec fn keys_are<V>(s: Seq<(Seq<char>, V)>, names: Seq<String>, n: int) -> bool {
    forall|t: Seq<char>| has_key(s, t) <==> among(names, n, t)
}

/// Binding name `i` to a map whose keys are the first `i` names gives one
/// whose keys are the first `i + 1`.
pub proof fn lemma_keys_grow<V>(
    before: Seq<(Seq<char>, V)>,
    after: Seq<(Seq<char>, V)>,
    names: Seq<String>,
    i: int,
)
    requires
        0 <= i < names.len(),
        keys_are(before, names, i),
        has_key(after, names[i]@),
        forall|o: Seq<char>| o != names[i]@ ==> has_key(after, o) == has_key(before, o),
    ensures
        keys_are(after, names, i + 1),
{
    let key = names[i]@;
    assert forall|t: Seq<char>| has_key(after, t) <==> among(names, i + 1, t) by {
        if t == key {
            assert(names[i]@ == t);
        } else {
            assert(has_key(after, t) == has_key(before, t));
            if among(names, i, t) {
                let j = choose|j: int| 0 <= j < i && (#[trigger] names[j])@ == t;
                assert(0 <= j < i + 1 && names[j]@ == t);
            }
            if among(names, i + 1, t) {
                let j = choose|j: int| 0 <= j < i + 1 && (#[trigger] names[j])@ == t;
                assert(j != i);
                assert(0 <= j < i && names[j]@ == t);
            }
        }
    }
}

spec fn paired<V>(keys: Seq<String>, vals: Seq<V>) -> Seq<(Seq<char>, V)> {
    Seq::new(keys.len(), |i: int| (keys[i]@, vals[i]))
}

/// An ordered map with string keys.
#[derive(Debug, PartialEq, Eq)]
pub struct StrMap<V> {
    keys: Vec<String>,
    vals: Vec<V>,
}

impl<V: Clone> Clone for StrMap<V> {
    /// The copy has the same keys in the same order, each with a clone of
    /// its value.
    fn clone(&self) -> (r: Self)
        ensures
            r@.len() == self@.len(),
            forall|i: int| 0 <= i < self@.len() ==> (#[trigger] r@[i]).0 == self@[i].0,
            forall|i: int| 0 <= i < self@.len() ==> cloned(self@[i].1, (#[trigger] r@[i]).1),
            sorted(r@),
    {
        proof {
            use_type_invariant(self);
        }
        let n: usize = self.keys.len();
        let mut keys: Vec<String> = Vec::new();
        let mut vals: Vec<V> = Vec::new();
        let mut i: usize = 0;
        while i < n
            invariant
                n == self.keys@.len(),
                n == self.vals@.len(),
                i <= n,
                keys@.len() == i,
                vals@.len() == i,
                forall|j: int| 0 <= j < i ==> (#[trigger] keys@[j])@ == self.keys@[j]@,
                forall|j: int| 0 <= j < i ==> cloned(self.vals@[j], #[trigger] vals@[j]),
            decreases n - i,
        {
            keys.push(self.keys[i].clone());
            vals.push(self.vals[i].clone());
            i = i + 1;
        }
        proof {
            let t = paired(keys@, vals@);
            let s = self@;
            assert forall|a: int, b: int| 0 <= a < b < t.len() implies str_lt(
                #[trigger] t[a].0,
                #[trigger] t[b].0,
            ) by {
                assert(t[a].0 == s[a].0 && t[b].0 == s[b].0);
            }
        }
        StrMap { keys, vals }
    }
}

impl<V> StrMap<V> {
    #[verifier::type_invariant]
    closed spec fn inv(self) -> bool {
        &&& self.keys@.len() == self.vals@.len()
        &&& sorted(self.view())
    }

    /// The entries in key order.
    pub closed spec fn view(&self) -> Seq<(Seq<char>, V)> {
        paired(self.keys@, self.vals@)
    }

    /// The map without entries.
    pub fn new() -> (r: Self)
        ensures
            r@ == Seq::<(Seq<char>, V)>::empty(),
    {
        let keys: Vec<String> = Vec::new();
        let vals: Vec<V> = Vec::new();
        assert(paired(keys@, vals@) =~= Seq::<(Seq<char>, V)>::empty());
        StrMap { keys, vals }
    }

    /// Hands the ordering of the entries to the caller's proof.
    pub fn ordered(&self)
        ensures
            sorted(self@),
    {
        proof {
            use_type_invariant(self);
        }
    }

    /// The number of entries.
    pub fn len(&self) -> (r: usize)
        ensures
            r == self@.len(),
    {
        self.keys.len()
    }

    /// Whether the map has no entry.
    pub fn is_empty(&self) -> (r: bool)
        ensures
            r == (self@.len() == 0),
    {
        self.keys.len() == 0
    }

    /// The key of the entry at position `i` of the order.
    pub fn key_at(&self, i: usize) -> (r: &str)
        requires
            i < self@.len(),
        ensures
            r@ == self@[i as int].0,
    {
        self.keys[i].as_str()
    }

    /// The value of the entry at position `i` of the order.
    pub fn value_at(&self, i: usize) -> (r: &V)
        requires
            i < self@.len(),
        ensures
            *r == self@[i as int].1,
    {
        proof {
            use_type_invariant(self);
        }
        &self.vals[i]
    }

    /// The position of `key`, or else the position at which it would enter.
    pub fn locate(&self, key: &str) -> (r: (usize, bool))
        ensures
            sorted(self@),
            r.1 == has_key(self@, key@),
            r.1 ==> r.0 < self@.len() && r.0 == index_of(self@, key@) && self@[r.0 as int].0
                == key@,
            !r.1 ==> r.0 == rank(self@, key@) && r.0 <= self@.len(),
    {
        proof {
            use_type_invariant(self);
        }
        let n: usize = self.keys.len();
        let mut i: usize = 0;
        while i < n
            invariant
                n == self@.len(),
                n == self.keys@.len(),
                sorted(self@),
                i <= n,
                forall|j: int| 0 <= j < i ==> str_lt(#[trigger] self@[j].0, key@),
            decreases n - i,
        {
            let o = compare(self.keys[i].as_str(), key);
            assert(self@[i as int].0 == self.keys@[i as int]@);
            match o {
                KeyOrder::Less => {},
                KeyOrder::Equal => {
                    proof {
                        lemma_index_of(self@, i as int);
                    }
                    return (i, true);
                },
                KeyOrder::Greater => {
                    proof {
                        let s = self@;
                        let k = key@;
                        assert forall|j: int| i <= j < s.len() implies !str_lt(
                            #[trigger] s[j].0,
                            k,
                        ) by {
                            if j > i {
                                if str_lt(s[j].0, k) {
                                    lemma_str_lt_transitive(s[j].0, k, s[i as int].0);
                                    lemma_str_lt_asymmetric(s[i as int].0, s[j].0);
                                }
                            } else {
                                lemma_str_lt_asymmetric(k, s[i as int].0);
                            }
                        }
                        lemma_rank(s, k, i as int);
                        if has_key(s, k) {
                            let j = index_of(s, k);
                            if j < i {
                                lemma_str_lt_asymmetric(s[j].0, k);
                            } else {
                                assert(!str_lt(s[j].0, k));
                                if j > i {
                                    lemma_str_lt_asymmetric(s[i as int].0, s[j].0);
                                } else {
                                    lemma_str_lt_asymmetric(k, s[i as int].0);
                                }
                            }
                        }
                    }
                    return (i, false);
                },
            }
            i = i + 1;
        }
        proof {
            let s = self@;
            let k = key@;
            lemma_rank(s, k, n as int);
            if has_key(s, k) {
                let j = index_of(s, k);
                lemma_str_lt_asymmetric(s[j].0, k);
            }
        }
        (n, false)
    }

    /// Whether `key` is bound.
    pub fn contains_key(&self, key: &str) -> (r: bool)
        ensures
            r == has_key(self@, key@),
    {
        self.locate(key).1
    }

    /// The value that `key` is bound to.
    pub fn get(&self, key: &str) -> (r: Option<&V>)
        ensures
            match r {
                Some(v) => lookup(self@, key@) == Some(*v),
                None => lookup(self@, key@) is None,
            },
    {
        let (i, found) = self.locate(key);
        if found {
            Some(self.value_at(i))
        } else {
            None
        }
    }

    /// Binds `key` to `value`; the value that `key` had before is handed back.
    pub fn insert(self, key: String, value: V) -> (r: (Self, Option<V>))
        ensures
            r.0@ == put(self@, key@, value),
            r.1 == lookup(self@, key@),
            sorted(r.0@),
    {
        proof {
            use_type_invariant(&self);
            lemma_put_sorted(self@, key@, value);
        }
        let (i, found) = self.locate(key.as_str());
        let ghost before = self@;
        let mut keys = self.keys;
        let mut vals = self.vals;
        if found {
            vals.push(value);
            let prev = vals.swap_remove(i);
            assert(paired(keys@, vals@) =~= put(before, key@, value));
            (StrMap { keys, vals }, Some(prev))
        } else {
            keys.insert(i, key);
            vals.insert(i, value);
            assert(paired(keys@, vals@) =~= put(before, key@, value));
            (StrMap { keys, vals }, None)
        }
    }

    /// Takes `key` out; the value that it had is handed back.
    pub fn remove(self, key: &str) -> (r: (Self, Option<V>))
        ensures
            r.0@ == del(self@, key@),
            r.1 == lookup(self@, key@),
            sorted(r.0@),
    {
        proof {
            use_type_invariant(&self);
            lemma_del_sorted(self@, key@);
        }
        let (i, found) = self.locate(key);
        let ghost before = self@;
        if found {
            let mut keys = self.keys;
            let mut vals = self.vals;
            let _ = keys.remove(i);
            let prev = vals.remove(i);
            assert(paired(keys@, vals@) =~= del(before, key@));
            (StrMap { keys, vals }, Some(prev))
        } else {
            (self, None)
        }
    }

    /// Takes the entry at position `i` out.
    pub fn remove_at(self, i: usize) -> (r: (Self, String, V))
        requires
            i < self@.len(),
        ensures
            r.0@ == self@.remove(i as int),
            r.1@ == self@[i as int].0,
            r.2 == self@[i as int].1,
            sorted(r.0@),
    {
        proof {
            use_type_invariant(&self);
            lemma_index_of(self@, i as int);
            lemma_del_sorted(self@, self@[i as int].0);
        }
        let ghost before = self@;
        let mut keys = self.keys;
        let mut vals = self.vals;
        let k = keys.remove(i);
        let v = vals.remove(i);
        assert(paired(keys@, vals@) =~= before.remove(i as int));
        (StrMap { keys, vals }, k, v)
    }

    /// Puts `value` in place of the value at position `i`, which is handed back.
    pub fn replace_at(self, i: usize, value: V) -> (r: (Self, V))
        requires
            i < self@.len(),
        ensures
            r.0@ == self@.update(i as int, (self@[i as int].0, value)),
            r.1 == self@[i as int].1,
            sorted(r.0@),
    {
        proof {
            use_type_invariant(&self);
        }
        let ghost before = self@;
        let keys = self.keys;
        let mut vals = self.vals;
        vals.push(value);
        let prev = vals.swap_remove(i);
        let ghost after = paired(keys@, vals@);
        assert(after =~= before.update(i as int, (before[i as int].0, value)));
        assert(sorted(after)) by {
            assert forall|a: int, b: int| 0 <= a < b < after.len() implies str_lt(
                #[trigger] after[a].0,
                #[trigger] after[b].0,
            ) by {
                assert(after[a].0 == before[a].0 && after[b].0 == before[b].0);
            }
        }
        (StrMap { keys, vals }, prev)
    }
}

} // verus!
