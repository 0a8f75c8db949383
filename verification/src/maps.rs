//! An insertion-ordered map from strings to values, the collection behind a
//! snapshot's operation table and the mount-path table of a parsed report.
//!
//! The map is a vector of key/value pairs whose keys are kept unique by
//! `insert`. Lookups return the first binding, so every operation is
//! deterministic; `assoc_get` and `assoc_upsert` are the mathematical
//! counterparts the contracts speak of.

use vstd::prelude::*;
use crate::text::str_eq;

verus! {

/// First value bound to key `k`, scanning left to right.
pub open spec fn assoc_get<T>(m: Seq<(Seq<char>, T)>, k: Seq<char>) -> Option<T>
    decreases m.len(),
{
    if m.len() == 0 {
        None
    } else if m[0].0 == k {
        Some(m[0].1)
    } else {
        assoc_get(m.drop_first(), k)
    }
}

/// Some binding for key `k` exists.
pub open spec fn assoc_has_key<T>(m: Seq<(Seq<char>, T)>, k: Seq<char>) -> bool {
    assoc_get(m, k) is Some
}

/// Replace the first binding of `k` in place, or append a new one.
pub open spec fn assoc_upsert<T>(m: Seq<(Seq<char>, T)>, k: Seq<char>, v: T) -> Seq<
    (Seq<char>, T),
>
    decreases m.len(),
{
    if m.len() == 0 {
        seq![(k, v)]
    } else if m[0].0 == k {
        seq![(k, v)] + m.drop_first()
    } else {
        seq![m[0]] + assoc_upsert(m.drop_first(), k, v)
    }
}

/// No two bindings share a key.
pub open spec fn keys_unique<T>(m: Seq<(Seq<char>, T)>) -> bool {
    forall|i: int, j: int| 0 <= i < j < m.len() ==> m[i].0 != m[j].0
}

proof fn lemma_assoc_get_skip<T>(m: Seq<(Seq<char>, T)>, k: Seq<char>, i: int)
    requires
        0 <= i <= m.len(),
        forall|j: int| 0 <= j < i ==> m[j].0 != k,
    ensures
        assoc_get(m, k) == assoc_get(m.skip(i), k),
    decreases i,
{
    if i > 0 {
        assert(m[0].0 != k);
        assert(m.drop_first().skip(i - 1) =~= m.skip(i));
        assert(forall|j: int| 0 <= j < i - 1 ==> #[trigger] m.drop_first()[j].0 == m[j + 1].0);
        lemma_assoc_get_skip(m.drop_first(), k, i - 1);
    } else {
        assert(m.skip(0) =~= m);
    }
}

/// A key is bound somewhere in the map.
pub open spec fn assoc_key_in<T>(m: Seq<(Seq<char>, T)>, key: Seq<char>) -> bool {
    exists|i: int| 0 <= i < m.len() && m[i].0 == key
}

/// With unique keys, looking up the key at position `i` yields the value
/// at position `i`.
pub proof fn lemma_assoc_get_at<T>(m: Seq<(Seq<char>, T)>, i: int)
    requires
        keys_unique(m),
        0 <= i < m.len(),
    ensures
        assoc_get(m, m[i].0) == Some(m[i].1),
    decreases i,
{
    if i == 0 {
    } else {
        assert(m[0].0 != m[i].0);
        assert(forall|j: int|
            0 <= j < m.drop_first().len() ==> #[trigger] m.drop_first()[j] == m[j + 1]);
        assert(keys_unique(m.drop_first()));
        lemma_assoc_get_at(m.drop_first(), i - 1);
    }
}

/// Every binding of `assoc_upsert(m, k, v)` is either `(k, v)` or a binding
/// of `m` at the same position.
pub proof fn lemma_assoc_upsert_pointwise<T>(m: Seq<(Seq<char>, T)>, k: Seq<char>, v: T)
    ensures
        forall|i: int|
            0 <= i < assoc_upsert(m, k, v).len() ==> (#[trigger] assoc_upsert(m, k, v)[i] == (k, v)
                || (0 <= i < m.len() && assoc_upsert(m, k, v)[i] == m[i])),
    decreases m.len(),
{
    let u = assoc_upsert(m, k, v);
    if m.len() == 0 {
        assert(u[0] == (k, v));
    } else if m[0].0 == k {
        assert(u[0] == (k, v));
        assert(forall|i: int| 1 <= i < u.len() ==> #[trigger] u[i] == m.drop_first()[i - 1]);
        assert(forall|i: int|
            1 <= i < m.len() ==> #[trigger] m.drop_first()[i - 1] == m[i]);
    } else {
        lemma_assoc_upsert_pointwise(m.drop_first(), k, v);
        let rest = assoc_upsert(m.drop_first(), k, v);
        assert(u[0] == m[0]);
        assert(forall|i: int| 1 <= i <= rest.len() ==> #[trigger] u[i] == rest[i - 1]);
        assert(forall|i: int|
            1 <= i < m.len() ==> #[trigger] m.drop_first()[i - 1] == m[i]);
    }
}

/// A key is bound exactly when some position holds it.
pub proof fn lemma_has_key_index<T>(m: Seq<(Seq<char>, T)>, k: Seq<char>)
    ensures
        assoc_has_key(m, k) <==> assoc_key_in(m, k),
    decreases m.len(),
{
    if m.len() == 0 {
    } else if m[0].0 == k {
        assert(m[0].0 == k);
        assert(assoc_key_in(m, k));
    } else {
        lemma_has_key_index(m.drop_first(), k);
        if assoc_key_in(m, k) {
            let i = choose|i: int| 0 <= i < m.len() && m[i].0 == k;
            assert(i > 0);
            assert(m.drop_first()[i - 1].0 == k);
            assert(assoc_key_in(m.drop_first(), k));
        }
        if assoc_key_in(m.drop_first(), k) {
            let i = choose|i: int| 0 <= i < m.drop_first().len() && m.drop_first()[i].0 == k;
            assert(m[i + 1].0 == k);
            assert(assoc_key_in(m, k));
        }
    }
}

/// `assoc_upsert` keeps the existing keys in their positions; an absent key
/// is appended at the end.
pub proof fn lemma_assoc_upsert_keys<T>(m: Seq<(Seq<char>, T)>, k: Seq<char>, v: T)
    ensures
        assoc_has_key(m, k) ==> assoc_upsert(m, k, v).len() == m.len(),
        !assoc_has_key(m, k) ==> assoc_upsert(m, k, v).len() == m.len() + 1 && assoc_upsert(
            m,
            k,
            v,
        )[m.len() as int].0 == k,
        forall|i: int| 0 <= i < m.len() ==> #[trigger] assoc_upsert(m, k, v)[i].0 == m[i].0,
    decreases m.len(),
{
    let u = assoc_upsert(m, k, v);
    if m.len() == 0 {
        assert(u[0].0 == k);
    } else if m[0].0 == k {
        assert(u[0].0 == m[0].0);
        assert(forall|i: int| 1 <= i < m.len() ==> #[trigger] u[i] == m.drop_first()[i - 1]);
    } else {
        lemma_assoc_upsert_keys(m.drop_first(), k, v);
        let rest = assoc_upsert(m.drop_first(), k, v);
        assert(u[0] == m[0]);
        assert(forall|i: int| 1 <= i <= rest.len() ==> #[trigger] u[i] == rest[i - 1]);
        assert(forall|i: int|
            1 <= i < m.len() ==> #[trigger] m.drop_first()[i - 1] == m[i]);
    }
}

/// `assoc_upsert` keeps keys unique.
pub proof fn lemma_assoc_upsert_unique<T>(m: Seq<(Seq<char>, T)>, k: Seq<char>, v: T)
    requires
        keys_unique(m),
    ensures
        keys_unique(assoc_upsert(m, k, v)),
{
    lemma_assoc_upsert_keys(m, k, v);
    lemma_has_key_index(m, k);
    let u = assoc_upsert(m, k, v);
    if assoc_has_key(m, k) {
        assert forall|i: int, j: int| 0 <= i < j < u.len() implies u[i].0 != u[j].0 by {
            assert(u[i].0 == m[i].0);
            assert(u[j].0 == m[j].0);
        }
    } else {
        assert forall|i: int, j: int| 0 <= i < j < u.len() implies u[i].0 != u[j].0 by {
            if j < m.len() {
                assert(u[i].0 == m[i].0);
                assert(u[j].0 == m[j].0);
            } else {
                assert(u[i].0 == m[i].0);
                assert(u[j].0 == k);
                assert(!assoc_key_in(m, k));
                assert(m[i].0 != k);
            }
        }
    }
}

proof fn lemma_assoc_upsert_at<T>(m: Seq<(Seq<char>, T)>, k: Seq<char>, v: T, i: int)
    requires
        0 <= i < m.len(),
        m[i].0 == k,
        forall|j: int| 0 <= j < i ==> m[j].0 != k,
    ensures
        assoc_upsert(m, k, v) == m.update(i, (k, v)),
    decreases i,
{
    if i == 0 {
        assert(assoc_upsert(m, k, v) =~= m.update(0, (k, v)));
    } else {
        assert(forall|j: int| 0 <= j < i - 1 ==> #[trigger] m.drop_first()[j].0 == m[j + 1].0);
        assert(m.drop_first()[i - 1].0 == k);
        lemma_assoc_upsert_at(m.drop_first(), k, v, i - 1);
        assert(seq![m[0]] + m.drop_first().update(i - 1, (k, v)) =~= m.update(i, (k, v)));
    }
}

/// Upserting an absent key appends the binding.
pub proof fn lemma_assoc_upsert_missing<T>(m: Seq<(Seq<char>, T)>, k: Seq<char>, v: T)
    requires
        forall|j: int| 0 <= j < m.len() ==> m[j].0 != k,
    ensures
        assoc_upsert(m, k, v) == m.push((k, v)),
    decreases m.len(),
{
    if m.len() == 0 {
        assert(assoc_upsert(m, k, v) =~= m.push((k, v)));
    } else {
        assert(forall|j: int|
            0 <= j < m.drop_first().len() ==> #[trigger] m.drop_first()[j].0 == m[j + 1].0);
        lemma_assoc_upsert_missing(m.drop_first(), k, v);
        assert(seq![m[0]] + m.drop_first().push((k, v)) =~= m.push((k, v)));
    }
}

/// An insertion-ordered string-keyed map. `insert` replaces the first
/// binding of an existing key in place, so keys stay unique and the order
/// in which distinct keys first appeared is preserved.
#[derive(Debug, PartialEq)]
pub struct AssocMap<V: View> {
    entries: Vec<(String, V)>,
}

impl<V: View> View for AssocMap<V> {
    type V = Seq<(Seq<char>, <V as View>::V)>;

    closed spec fn view(&self) -> Seq<(Seq<char>, <V as View>::V)> {
        Seq::new(self.entries@.len(), |i: int| (self.entries@[i].0@, self.entries@[i].1@))
    }
}

impl<V: View> AssocMap<V> {
    /// Keys are unique in every map that this module's operations can build;
    /// obtain this fact with `use_type_invariant`.
    #[verifier::type_invariant]
    pub open spec fn wf(self) -> bool {
        keys_unique(self@)
    }

    /// The empty map.
    pub fn new() -> (r: Self)
        ensures
            r@ == Seq::<(Seq<char>, <V as View>::V)>::empty(),
    {
        let entries: Vec<(String, V)> = Vec::new();
        proof {
            let ghost_view = Seq::new(entries@.len(), |i: int| (entries@[i].0@, entries@[i].1@));
            assert(ghost_view =~= Seq::<(Seq<char>, <V as View>::V)>::empty());
        }
        let r = AssocMap { entries };
        proof {
            assert(r@ =~= Seq::<(Seq<char>, <V as View>::V)>::empty());
        }
        r
    }

    /// Number of bindings.
    pub fn len(&self) -> (r: usize)
        ensures
            r == self@.len(),
    {
        self.entries.len()
    }

    /// Position of the first binding of `k`, if any.
    fn index_of(&self, k: &str) -> (r: Option<usize>)
        ensures
            match r {
                Some(i) => i < self@.len() && self@[i as int].0 == k@ && (forall|j: int|
                    0 <= j < i ==> self@[j].0 != k@),
                None => forall|j: int| 0 <= j < self@.len() ==> self@[j].0 != k@,
            },
    {
        let n: usize = self.entries.len();
        let mut i: usize = 0;
        while i < n
            invariant
                i <= n,
                n == self@.len(),
                n == self.entries@.len(),
                forall|j: int| 0 <= j < i ==> self@[j].0 != k@,
            decreases n - i,
        {
            let pair = &self.entries[i];
            if str_eq(pair.0.as_str(), k) {
                assert(self@[i as int].0 == k@);
                return Some(i);
            }
            assert(self@[i as int].0 != k@);
            i = i + 1;
        }
        None
    }

    /// Whether `k` is bound.
    pub fn contains_key(&self, k: &str) -> (r: bool)
        ensures
            r == assoc_has_key(self@, k@),
    {
        match self.index_of(k) {
            Some(i) => {
                proof {
                    lemma_assoc_get_skip(self@, k@, i as int);
                    assert(self@.skip(i as int)[0] == self@[i as int]);
                }
                true
            },
            None => {
                proof {
                    lemma_assoc_get_skip(self@, k@, self@.len() as int);
                    assert(self@.skip(self@.len() as int).len() == 0);
                }
                false
            },
        }
    }

    /// The value bound to `k`, if any.
    pub fn get(&self, k: &str) -> (r: Option<&V>)
        ensures
            match r {
                Some(v) => assoc_get(self@, k@) == Some(v@),
                None => assoc_get(self@, k@) is None,
            },
    {
        match self.index_of(k) {
            Some(i) => {
                proof {
                    lemma_assoc_get_skip(self@, k@, i as int);
                    assert(self@.skip(i as int)[0] == self@[i as int]);
                }
                let pair = &self.entries[i];
                Some(&pair.1)
            },
            None => {
                proof {
                    lemma_assoc_get_skip(self@, k@, self@.len() as int);
                    assert(self@.skip(self@.len() as int).len() == 0);
                }
                None
            },
        }
    }

    /// Bind `k` to `v`, replacing the first existing binding in place.
    pub fn insert(&mut self, k: String, v: V)
        ensures
            final (self)@ == assoc_upsert(old(self)@, k@, v@),
    {
        proof {
            use_type_invariant(&*self);
        }
        let ghost m = self@;
        let idx = self.index_of(k.as_str());
        let empty_entries: Vec<(String, V)> = Vec::new();
        proof {
            let empty_view = Seq::new(
                empty_entries@.len(),
                |i: int| (empty_entries@[i].0@, empty_entries@[i].1@),
            );
            assert(keys_unique(empty_view));
        }
        let mut tmp = AssocMap { entries: empty_entries };
        core::mem::swap(self, &mut tmp);
        let AssocMap { mut entries } = tmp;
        match idx {
            Some(i) => {
                entries.set(i, (k, v));
                proof {
                    lemma_assoc_upsert_at(m, k@, v@, i as int);
                    lemma_assoc_upsert_unique(m, k@, v@);
                }
            },
            None => {
                entries.push((k, v));
                proof {
                    lemma_assoc_upsert_missing(m, k@, v@);
                    lemma_assoc_upsert_unique(m, k@, v@);
                }
            },
        }
        proof {
            let new_view = Seq::new(entries@.len(), |i: int| (entries@[i].0@, entries@[i].1@));
            assert(new_view =~= assoc_upsert(m, k@, v@));
        }
        *self = AssocMap { entries };
    }

    /// Key of the binding at position `i`.
    pub fn key_at(&self, i: usize) -> (r: &String)
        requires
            i < self@.len(),
        ensures
            r@ == self@[i as int].0,
    {
        let pair = &self.entries[i];
        &pair.0
    }

    /// Value of the binding at position `i`.
    pub fn value_at(&self, i: usize) -> (r: &V)
        requires
            i < self@.len(),
        ensures
            r@ == self@[i as int].1,
    {
        let pair = &self.entries[i];
        &pair.1
    }
}

} // verus!
