//! A transactional overlay over one logical key/value table.
//!
//! A [`TableTransaction`] owns a base snapshot (the durably committed rows)
//! and a pending log that records, per key, the *net* effect of every
//! mutation made so far: `Net { live: Some(v) }` means the row ends the
//! transaction live with value `v`, `Net { live: None }` means it ends
//! absent. Because the log is keyed, arbitrarily many operations on one row
//! collapse to a single net entry, and the commit diff is derived purely
//! from the pair (base state, net state) of each touched key.

use vstd::prelude::*;

verus! {

/// An executable table key: equality and cloning must agree with the
/// mathematical view of the key.
pub trait TableKey: View + Sized {
    /// Decides view equality of two keys.
    fn key_eq(&self, other: &Self) -> (r: bool)
        ensures
            r <==> self@ == other@;

    /// Clones the key, preserving its view.
    fn key_clone(&self) -> (r: Self)
        ensures
            r@ == self@;
}

/// An executable table value, together with the table's uniqueness
/// predicate: `conflicts_spec(existing, candidate)` holds when a live row
/// with value `existing` forbids inserting a row with value `candidate`.
pub trait TableValue: View + Sized {
    /// The uniqueness predicate of the table this value type belongs to.
    spec fn conflicts_spec(a: Self::V, b: Self::V) -> bool;

    /// The uniqueness predicate does not depend on the order of its
    /// arguments; every predicate in this catalog is an equality of fields.
    proof fn lemma_conflicts_symmetric(a: Self::V, b: Self::V)
        ensures
            Self::conflicts_spec(a, b) == Self::conflicts_spec(b, a);

    /// Decides the uniqueness predicate.
    fn conflicts(&self, candidate: &Self) -> (r: bool)
        ensures
            r <==> Self::conflicts_spec(self@, candidate@);

    /// Decides view equality of two values.
    fn value_eq(&self, other: &Self) -> (r: bool)
        ensures
            r <==> self@ == other@;

    /// Clones the value, preserving its view.
    fn value_clone(&self) -> (r: Self)
        ensures
            r@ == self@;
}

/// The net effect a transaction has had on one key: the row is either live
/// with the recorded value, or absent.
pub struct Net<V> {
    pub live: Option<V>,
}

impl<V: View> View for Net<V> {
    type V = Option<V::V>;

    open spec fn view(&self) -> Option<V::V> {
        match self.live {
            Some(v) => Some(v@),
            None => None,
        }
    }
}

/// The view of an optional value.
pub open spec fn opt_view<V: View>(o: Option<V>) -> Option<V::V> {
    match o {
        Some(v) => Some(v@),
        None => None,
    }
}

/// The mapping that a sequence of (key, value) pairs denotes; later entries
/// win, though every sequence built here has distinct keys.
pub open spec fn assoc_map<K: View, V: View>(s: Seq<(K, V)>) -> Map<K::V, V::V>
    decreases s.len(),
{
    if s.len() == 0 {
        Map::empty()
    } else {
        assoc_map(s.drop_last()).insert(s.last().0@, s.last().1@)
    }
}

/// All keys of the sequence have distinct views.
pub open spec fn distinct_keys<K: View, V>(s: Seq<(K, V)>) -> bool {
    forall|i: int, j: int|
        0 <= i < j < s.len() ==> (#[trigger] s[i]).0@ != (#[trigger] s[j]).0@
}

/// The base mapping overlaid with the net pending effects.
pub open spec fn overlay<KV, VV>(base: Map<KV, VV>, pend: Map<KV, Option<VV>>) -> Map<KV, VV> {
    Map::new(
        |k: KV|
            if pend.dom().contains(k) {
                pend[k] is Some
            } else {
                base.dom().contains(k)
            },
        |k: KV|
            if pend.dom().contains(k) {
                pend[k]->Some_0
            } else {
                base[k]
            },
    )
}

proof fn lemma_distinct_drop_last<K: View, V>(s: Seq<(K, V)>)
    requires
        distinct_keys(s),
        s.len() > 0,
    ensures
        distinct_keys(s.drop_last()),
{
}

/// Under distinct keys, the denoted map sends each entry's key to its value.
pub proof fn lemma_assoc_index<K: View, V: View>(s: Seq<(K, V)>, i: int)
    requires
        distinct_keys(s),
        0 <= i < s.len(),
    ensures
        assoc_map(s).contains_key(s[i].0@),
        assoc_map(s)[s[i].0@] == s[i].1@,
    decreases s.len(),
{
    if i < s.len() - 1 {
        lemma_distinct_drop_last(s);
        lemma_assoc_index(s.drop_last(), i);
        assert(s[i] == s.drop_last()[i]);
        assert(s[i].0@ != s[s.len() - 1].0@);
    }
}

/// The denoted map contains a key exactly when some entry carries it.
pub proof fn lemma_assoc_contains<K: View, V: View>(s: Seq<(K, V)>, k: K::V)
    ensures
        assoc_map(s).contains_key(k) <==> exists|i: int|
            0 <= i < s.len() && (#[trigger] s[i]).0@ == k,
    decreases s.len(),
{
    if s.len() > 0 {
        lemma_assoc_contains(s.drop_last(), k);
        if s.last().0@ == k {
            assert(s[s.len() - 1].0@ == k);
        } else {
            if exists|i: int| 0 <= i < s.len() - 1 && (#[trigger] s.drop_last()[i]).0@ == k {
                let i = choose|i: int|
                    0 <= i < s.len() - 1 && (#[trigger] s.drop_last()[i]).0@ == k;
                assert(s[i].0@ == k);
            }
            if exists|i: int| 0 <= i < s.len() && (#[trigger] s[i]).0@ == k {
                let i = choose|i: int| 0 <= i < s.len() && (#[trigger] s[i]).0@ == k;
                assert(s.drop_last()[i].0@ == k);
            }
        }
    }
}

/// Appending a fresh entry denotes an insertion into the map.
pub proof fn lemma_assoc_push<K: View, V: View>(s: Seq<(K, V)>, x: (K, V))
    ensures
        assoc_map(s.push(x)) == assoc_map(s).insert(x.0@, x.1@),
{
    assert(s.push(x).drop_last() =~= s);
    assert(s.push(x).last() == x);
}

/// Replacing the value of entry `i` denotes overwriting its key.
pub proof fn lemma_assoc_update<K: View, V: View>(s: Seq<(K, V)>, i: int, x: (K, V))
    requires
        distinct_keys(s),
        0 <= i < s.len(),
        x.0@ == s[i].0@,
    ensures
        assoc_map(s.update(i, x)) == assoc_map(s).insert(x.0@, x.1@),
        distinct_keys(s.update(i, x)),
    decreases s.len(),
{
    let t = s.update(i, x);
    assert forall|a: int, b: int| 0 <= a < b < t.len() implies (#[trigger] t[a]).0@
        != (#[trigger] t[b]).0@ by {
        assert(s[a].0@ != s[b].0@);
    }
    if i == s.len() - 1 {
        assert(t.drop_last() =~= s.drop_last());
        assert(t.last() == x);
    } else {
        lemma_distinct_drop_last(s);
        assert(t.drop_last() =~= s.drop_last().update(i, x));
        assert(s.drop_last()[i] == s[i]);
        lemma_assoc_update(s.drop_last(), i, x);
        assert(t.last() == s.last());
        assert(x.0@ != s.last().0@);
        assert(assoc_map(t) == assoc_map(s.drop_last()).insert(x.0@, x.1@).insert(
            s.last().0@,
            s.last().1@,
        ));
        assert(assoc_map(s.drop_last()).insert(x.0@, x.1@).insert(s.last().0@, s.last().1@)
            =~= assoc_map(s.drop_last()).insert(s.last().0@, s.last().1@).insert(x.0@, x.1@));
    }
}

/// Returned by an operation that would violate the table's key or
/// value-uniqueness constraints; the table is left unchanged.
#[derive(Clone, Copy, Debug, PartialEq, Eq, Structural)]
pub struct Conflict;

/// The mathematical state of one table overlay: its base snapshot and the
/// net pending effect per touched key.
#[verifier::ext_equal]
#[verifier::reject_recursive_types(KV)]
pub ghost struct TableState<KV, VV> {
    pub base: Map<KV, VV>,
    pub pending: Map<KV, Option<VV>>,
}

impl<KV, VV> TableState<KV, VV> {
    /// The rows that are currently live: base rows overlaid by pending.
    pub open spec fn live(self) -> Map<KV, VV> {
        overlay(self.base, self.pending)
    }
}

/// A transactional overlay over one key/value table.
pub struct TableTransaction<K, V> {
    base: Vec<(K, V)>,
    pending: Vec<(K, Net<V>)>,
}

impl<K: TableKey, V: TableValue> TableTransaction<K, V> {
    /// The base snapshot as a mapping.
    pub closed spec fn base_map(self) -> Map<K::V, V::V> {
        assoc_map(self.base@)
    }

    /// The net pending effect per touched key.
    pub closed spec fn pending_map(self) -> Map<K::V, Option<V::V>> {
        assoc_map(self.pending@)
    }

    /// The whole mathematical state of the overlay.
    pub open spec fn state(self) -> TableState<K::V, V::V> {
        TableState { base: self.base_map(), pending: self.pending_map() }
    }

    /// The currently-live rows.
    pub open spec fn live(self) -> Map<K::V, V::V> {
        self.state().live()
    }

    /// Internal well-formedness: both row lists carry distinct keys.
    pub closed spec fn wf(self) -> bool {
        distinct_keys(self.base@) && distinct_keys(self.pending@)
    }

    /// No two distinct live rows satisfy the uniqueness predicate.
    pub open spec fn unique_ok(m: Map<K::V, V::V>) -> bool {
        forall|k1: K::V, k2: K::V|
            m.dom().contains(k1) && m.dom().contains(k2) && k1 != k2 ==> !V::conflicts_spec(
                #[trigger] m[k1],
                #[trigger] m[k2],
            )
    }

    /// Opens a transaction over a base snapshot. The snapshot must carry
    /// distinct keys and already satisfy the uniqueness predicate; a
    /// snapshot that does not is rejected unchanged.
    pub fn new(base: Vec<(K, V)>) -> (r: Result<Self, Conflict>)
        ensures
            match r {
                Ok(t) => {
                    &&& t.wf()
                    &&& distinct_keys(base@)
                    &&& t.state() == (TableState {
                        base: assoc_map(base@),
                        pending: Map::<K::V, Option<V::V>>::empty(),
                    })
                    &&& t.live() == assoc_map(base@)
                    &&& Self::unique_ok(t.live())
                },
                Err(_) => !distinct_keys(base@) || !Self::unique_ok(assoc_map(base@)),
            },
    {
        let n = base.len();
        let mut i: usize = 0;
        while i < n
            invariant
                n == base.len(),
                i <= n,
                forall|a: int, b: int|
                    0 <= a < b < base@.len() && a < i ==> (#[trigger] base@[a]).0@ != (
                    #[trigger] base@[b]).0@,
                forall|a: int, b: int|
                    0 <= a < base@.len() && 0 <= b < base@.len() && a != b && a < i
                        ==> !V::conflicts_spec(
                        (#[trigger] base@[a]).1@,
                        (#[trigger] base@[b]).1@,
                    ),
            decreases n - i,
        {
            let mut j: usize = 0;
            while j < n
                invariant
                    n == base.len(),
                    i < n,
                    j <= n,
                    forall|b: int|
                        0 <= b < base@.len() && b < j && i != b ==> base@[i as int].0@ != (
                        #[trigger] base@[b]).0@,
                    forall|b: int|
                        0 <= b < base@.len() && b < j && i != b ==> !V::conflicts_spec(
                            base@[i as int].1@,
                            (#[trigger] base@[b]).1@,
                        ),
                decreases n - j,
            {
                if j != i {
                    if base[i].0.key_eq(&base[j].0) {
                        proof {
                            if distinct_keys(base@) {
                                if i < j {
                                    assert(base@[i as int].0@ != base@[j as int].0@);
                                } else {
                                    assert(base@[j as int].0@ != base@[i as int].0@);
                                }
                            }
                        }
                        return Err(Conflict);
                    }
                    if base[i].1.conflicts(&base[j].1) {
                        proof {
                            if distinct_keys(base@) {
                                lemma_assoc_index(base@, i as int);
                                lemma_assoc_index(base@, j as int);
                                if i < j {
                                    assert(base@[i as int].0@ != base@[j as int].0@);
                                } else {
                                    assert(base@[j as int].0@ != base@[i as int].0@);
                                }
                            }
                        }
                        return Err(Conflict);
                    }
                }
                j += 1;
            }
            i += 1;
        }
        let t = TableTransaction { base, pending: Vec::new() };
        proof {
            assert forall|k1: K::V, k2: K::V|
                assoc_map(t.base@).dom().contains(k1) && assoc_map(t.base@).dom().contains(k2)
                    && k1 != k2 implies !V::conflicts_spec(
                assoc_map(t.base@)[k1],
                assoc_map(t.base@)[k2],
            ) by {
                lemma_assoc_contains(t.base@, k1);
                lemma_assoc_contains(t.base@, k2);
                let a = choose|a: int| 0 <= a < t.base@.len() && (#[trigger] t.base@[a]).0@ == k1;
                let b = choose|b: int| 0 <= b < t.base@.len() && (#[trigger] t.base@[b]).0@ == k2;
                lemma_assoc_index(t.base@, a);
                lemma_assoc_index(t.base@, b);
            }
            assert(t.live() =~= assoc_map(t.base@));
        }
        Ok(t)
    }

    /// Index of the pending entry for `k`, if one exists.
    fn pending_index(&self, k: &K) -> (r: Option<usize>)
        requires
            self.wf(),
        ensures
            match r {
                Some(i) => i < self.pending@.len() && self.pending@[i as int].0@ == k@
                    && self.pending_map().contains_key(k@) && self.pending_map()[k@]
                    == self.pending@[i as int].1@,
                None => !self.pending_map().contains_key(k@),
            },
    {
        let n = self.pending.len();
        let mut i: usize = 0;
        while i < n
            invariant
                self.wf(),
                n == self.pending.len(),
                i <= n,
                forall|t: int| 0 <= t < i ==> (#[trigger] self.pending@[t]).0@ != k@,
            decreases n - i,
        {
            if self.pending[i].0.key_eq(k) {
                proof {
                    lemma_assoc_index(self.pending@, i as int);
                }
                return Some(i);
            }
            i += 1;
        }
        proof {
            lemma_assoc_contains(self.pending@, k@);
        }
        None
    }

    /// Index of the base entry for `k`, if one exists.
    fn base_index(&self, k: &K) -> (r: Option<usize>)
        requires
            self.wf(),
        ensures
            match r {
                Some(i) => i < self.base@.len() && self.base@[i as int].0@ == k@
                    && self.base_map().contains_key(k@) && self.base_map()[k@]
                    == self.base@[i as int].1@,
                None => !self.base_map().contains_key(k@),
            },
    {
        let n = self.base.len();
        let mut i: usize = 0;
        while i < n
            invariant
                self.wf(),
                n == self.base.len(),
                i <= n,
                forall|t: int| 0 <= t < i ==> (#[trigger] self.base@[t]).0@ != k@,
            decreases n - i,
        {
            if self.base[i].0.key_eq(k) {
                proof {
                    lemma_assoc_index(self.base@, i as int);
                }
                return Some(i);
            }
            i += 1;
        }
        proof {
            lemma_assoc_contains(self.base@, k@);
        }
        None
    }

    /// The current value for `k`, or `None` if the row never existed or was
    /// deleted.
    pub fn get(&self, k: &K) -> (r: Option<&V>)
        requires
            self.wf(),
        ensures
            match r {
                Some(v) => self.live().contains_key(k@) && v@ == self.live()[k@],
                None => !self.live().contains_key(k@),
            },
    {
        match self.pending_index(k) {
            Some(i) => match &self.pending[i].1.live {
                Some(v) => Some(v),
                None => None,
            },
            None => match self.base_index(k) {
                Some(i) => Some(&self.base[i].1),
                None => None,
            },
        }
    }

    /// Records `Net { live: v }` as the net effect for `k`, leaving the
    /// rest of the pending log unchanged.
    fn put_pending(&mut self, k: K, v: Option<V>)
        requires
            old(self).wf(),
        ensures
            final(self).wf(),
            final(self).base_map() == old(self).base_map(),
            final(self).pending_map() == old(self).pending_map().insert(k@, opt_view(v)),
    {
        let net = Net { live: v };
        proof {
            assert(net@ == opt_view(v));
        }
        match self.pending_index(&k) {
            Some(i) => {
                proof {
                    lemma_assoc_update(self.pending@, i as int, (k, Net { live: v }));
                }
                self.pending[i] = (k, net);
            },
            None => {
                proof {
                    lemma_assoc_push(self.pending@, (k, Net { live: v }));
                    lemma_assoc_contains(self.pending@, k@);
                    assert forall|a: int, b: int|
                        0 <= a < b < self.pending@.push((k, Net { live: v })).len() implies (
                    #[trigger] self.pending@.push((k, Net { live: v }))[a]).0@ != (
                    #[trigger] self.pending@.push((k, Net { live: v }))[b]).0@ by {
                        if b < self.pending@.len() {
                            assert(self.pending@[a].0@ != self.pending@[b].0@);
                        }
                    }
                }
                self.pending.push((k, net));
            },
        }
    }

    /// Unconditional upsert or delete, bypassing the uniqueness predicate;
    /// returns the prior live value, if any.
    pub fn set(&mut self, k: K, v: Option<V>) -> (prev: Option<V>)
        requires
            old(self).wf(),
        ensures
            final(self).wf(),
            final(self).state() == (TableState {
                pending: old(self).pending_map().insert(k@, opt_view(v)),
                ..old(self).state()
            }),
            opt_view(prev) == if old(self).live().contains_key(k@) {
                Some(old(self).live()[k@])
            } else {
                None::<V::V>
            },
            final(self).live() == match opt_view(v) {
                Some(vv) => old(self).live().insert(k@, vv),
                None => old(self).live().remove(k@),
            },
    {
        let prev = match self.get(&k) {
            Some(cur) => Some(cur.value_clone()),
            None => None,
        };
        let ghost pre = *self;
        self.put_pending(k, v);
        proof {
            match opt_view(v) {
                Some(vv) => {
                    assert(final(self).live() =~= pre.live().insert(k@, vv));
                },
                None => {
                    assert(final(self).live() =~= pre.live().remove(k@));
                },
            }
        }
        prev
    }

    /// The materialized current state: one entry per live row, with
    /// distinct keys, denoting exactly [`TableTransaction::live`].
    pub fn items(&self) -> (r: Vec<(K, V)>)
        requires
            self.wf(),
        ensures
            distinct_keys(r@),
            assoc_map(r@) == self.live(),
    {
        let mut out: Vec<(K, V)> = Vec::new();
        let nb = self.base.len();
        let mut i: usize = 0;
        while i < nb
            invariant
                self.wf(),
                nb == self.base.len(),
                i <= nb,
                distinct_keys(out@),
                forall|k: K::V|
                    #[trigger] assoc_map(out@).contains_key(k) <==> (!self.pending_map().dom().contains(k)
                        && exists|t: int| 0 <= t < i && (#[trigger] self.base@[t]).0@ == k),
                forall|k: K::V|
                    #[trigger] assoc_map(out@).contains_key(k) ==> assoc_map(out@)[k]
                        == self.live()[k],
            decreases nb - i,
        {
            let (k, v) = &self.base[i];
            if self.pending_index(k).is_none() {
                let kk = k.key_clone();
                let vv = v.value_clone();
                proof {
                    lemma_assoc_index(self.base@, i as int);
                    if assoc_map(out@).contains_key(self.base@[i as int].0@) {
                        let t = choose|t: int|
                            0 <= t < i && (#[trigger] self.base@[t]).0@ == self.base@[i as int].0@;
                        assert(false);
                    }
                    let pushed = out@.push((kk, vv));
                    lemma_assoc_push(out@, (kk, vv));
                    assert forall|a: int, b: int| 0 <= a < b < pushed.len() implies (
                    #[trigger] pushed[a]).0@ != (#[trigger] pushed[b]).0@ by {
                        if b < out@.len() {
                            assert(out@[a].0@ != out@[b].0@);
                        } else {
                            lemma_assoc_contains(out@, pushed[a].0@);
                        }
                    }
                }
                out.push((kk, vv));
            }
            i += 1;
        }
        proof {
            assert forall|k: K::V| #[trigger] assoc_map(out@).contains_key(k) <==> (!self.pending_map().dom().contains(
                k,
            ) && self.base_map().contains_key(k)) by {
                lemma_assoc_contains(self.base@, k);
            }
        }
        let np = self.pending.len();
        let mut j: usize = 0;
        while j < np
            invariant
                self.wf(),
                np == self.pending.len(),
                j <= np,
                distinct_keys(out@),
                forall|k: K::V|
                    #[trigger] assoc_map(out@).contains_key(k) <==> ((!self.pending_map().dom().contains(
                        k,
                    ) && self.base_map().contains_key(k)) || exists|t: int|
                        0 <= t < j && (#[trigger] self.pending@[t]).0@ == k && self.pending@[t].1@
                            is Some),
                forall|k: K::V|
                    #[trigger] assoc_map(out@).contains_key(k) ==> assoc_map(out@)[k]
                        == self.live()[k],
            decreases np - j,
        {
            proof {
                lemma_assoc_contains(self.base@, self.pending@[j as int].0@);
            }
            let (k, net) = &self.pending[j];
            if let Some(v) = &net.live {
                let kk = k.key_clone();
                let vv = v.value_clone();
                proof {
                    lemma_assoc_index(self.pending@, j as int);
                    if assoc_map(out@).contains_key(self.pending@[j as int].0@) {
                        if exists|t: int|
                            0 <= t < j && (#[trigger] self.pending@[t]).0@
                                == self.pending@[j as int].0@ && self.pending@[t].1@ is Some {
                            let t = choose|t: int|
                                0 <= t < j && (#[trigger] self.pending@[t]).0@
                                    == self.pending@[j as int].0@ && self.pending@[t].1@ is Some;
                            assert(self.pending@[t].0@ != self.pending@[j as int].0@);
                        }
                        assert(false);
                    }
                    let pushed = out@.push((kk, vv));
                    lemma_assoc_push(out@, (kk, vv));
                    assert forall|a: int, b: int| 0 <= a < b < pushed.len() implies (
                    #[trigger] pushed[a]).0@ != (#[trigger] pushed[b]).0@ by {
                        if b < out@.len() {
                            assert(out@[a].0@ != out@[b].0@);
                        } else {
                            lemma_assoc_contains(out@, pushed[a].0@);
                        }
                    }
                }
                out.push((kk, vv));
            }
            j += 1;
        }
        proof {
            assert forall|k: K::V| #[trigger] self.live().dom().contains(k) implies assoc_map(
                out@,
            ).contains_key(k) by {
                if self.pending_map().dom().contains(k) {
                    lemma_assoc_contains(self.pending@, k);
                    let t = choose|t: int|
                        0 <= t < self.pending@.len() && (#[trigger] self.pending@[t]).0@ == k;
                    lemma_assoc_index(self.pending@, t);
                } else {
                    lemma_assoc_contains(self.base@, k);
                }
            }
            assert forall|k: K::V| #[trigger] assoc_map(out@).contains_key(k) implies self.live().dom().contains(
                k,
            ) by {
                lemma_assoc_contains(self.base@, k);
                lemma_assoc_contains(self.pending@, k);
                if exists|t: int|
                    0 <= t < self.pending@.len() && (#[trigger] self.pending@[t]).0@ == k
                        && self.pending@[t].1@ is Some {
                    let t = choose|t: int|
                        0 <= t < self.pending@.len() && (#[trigger] self.pending@[t]).0@ == k
                            && self.pending@[t].1@ is Some;
                    lemma_assoc_index(self.pending@, t);
                    assert(self.pending_map()[k] is Some);
                } else {
                    assert(!self.pending_map().dom().contains(k) && self.base_map().contains_key(
                        k,
                    ));
                }
            }
            assert(assoc_map(out@) =~= self.live());
        }
        out
    }

    /// Records a net insert for `k`. Fails with [`Conflict`], mutating
    /// nothing, when `k` already has a live value or when any live value
    /// satisfies the uniqueness predicate against the candidate; this is
    /// exactly the condition under which it succeeds. A table whose live
    /// rows were pairwise conflict-free stays pairwise conflict-free.
    pub fn insert(&mut self, k: K, v: V) -> (r: Result<(), Conflict>)
        requires
            old(self).wf(),
        ensures
            final(self).wf(),
            match r {
                Ok(_) => {
                    &&& !old(self).live().contains_key(k@)
                    &&& forall|k2: K::V|
                        #[trigger] old(self).live().dom().contains(k2) ==> !V::conflicts_spec(
                            old(self).live()[k2],
                            v@,
                        )
                    &&& final(self).state() == (TableState {
                        pending: old(self).pending_map().insert(k@, Some(v@)),
                        ..old(self).state()
                    })
                    &&& final(self).live() == old(self).live().insert(k@, v@)
                },
                Err(_) => {
                    &&& *final(self) == *old(self)
                    &&& (old(self).live().contains_key(k@) || exists|k2: K::V|
                        #[trigger] old(self).live().dom().contains(k2) && V::conflicts_spec(
                            old(self).live()[k2],
                            v@,
                        ))
                },
            },
            Self::unique_ok(old(self).live()) ==> Self::unique_ok(final(self).live()),
    {
        if self.get(&k).is_some() {
            return Err(Conflict);
        }
        let cur = self.items();
        let n = cur.len();
        let mut i: usize = 0;
        while i < n
            invariant
                self.wf(),
                n == cur.len(),
                i <= n,
                distinct_keys(cur@),
                assoc_map(cur@) == self.live(),
                forall|t: int| 0 <= t < i ==> !V::conflicts_spec((#[trigger] cur@[t]).1@, v@),
            decreases n - i,
        {
            if cur[i].1.conflicts(&v) {
                proof {
                    lemma_assoc_index(cur@, i as int);
                }
                return Err(Conflict);
            }
            i += 1;
        }
        proof {
            assert forall|k2: K::V| #[trigger] self.live().dom().contains(k2) implies !V::conflicts_spec(
                self.live()[k2],
                v@,
            ) by {
                lemma_assoc_contains(cur@, k2);
                let t = choose|t: int| 0 <= t < cur@.len() && (#[trigger] cur@[t]).0@ == k2;
                lemma_assoc_index(cur@, t);
            }
        }
        let ghost pre = *self;
        let ghost vv = v@;
        let ghost kk = k@;
        self.put_pending(k, Some(v));
        proof {
            assert(self.live() =~= pre.live().insert(kk, vv));
            assert(self.state() =~= (TableState {
                pending: pre.pending_map().insert(kk, Some(vv)),
                ..pre.state()
            }));
            if Self::unique_ok(pre.live()) {
                assert forall|k1: K::V, k2: K::V|
                    self.live().dom().contains(k1) && self.live().dom().contains(k2) && k1
                        != k2 implies !V::conflicts_spec(self.live()[k1], self.live()[k2]) by {
                    if k1 == kk {
                        V::lemma_conflicts_symmetric(vv, pre.live()[k2]);
                    } else if k2 == kk {
                        assert(!V::conflicts_spec(pre.live()[k1], vv));
                    }
                }
            }
        }
        Ok(())
    }

    /// Replaces the value of the live row at `k`, if there is one, and
    /// returns the number of rows touched (zero or one). Fails with
    /// [`Conflict`], mutating nothing, when the replacement would satisfy
    /// the uniqueness predicate against a live row under another key.
    pub fn update_by_key(&mut self, k: &K, v: V) -> (r: Result<usize, Conflict>)
        requires
            old(self).wf(),
        ensures
            final(self).wf(),
            match r {
                Ok(n) => {
                    &&& (n == 1 <==> old(self).live().contains_key(k@))
                    &&& (n == 0 <==> !old(self).live().contains_key(k@))
                    &&& (n == 0 ==> *final(self) == *old(self))
                    &&& (n == 1 ==> forall|k2: K::V|
                        #[trigger] old(self).live().dom().contains(k2) && k2 != k@
                            ==> !V::conflicts_spec(old(self).live()[k2], v@))
                    &&& (n == 1 ==> final(self).state() == (TableState {
                        pending: old(self).pending_map().insert(k@, Some(v@)),
                        ..old(self).state()
                    }))
                    &&& (n == 1 ==> final(self).live() == old(self).live().insert(k@, v@))
                },
                Err(_) => {
                    &&& *final(self) == *old(self)
                    &&& old(self).live().contains_key(k@)
                    &&& exists|k2: K::V|
                        #[trigger] old(self).live().dom().contains(k2) && k2 != k@
                            && V::conflicts_spec(old(self).live()[k2], v@)
                },
            },
            Self::unique_ok(old(self).live()) ==> Self::unique_ok(final(self).live()),
    {
        if self.get(k).is_none() {
            return Ok(0);
        }
        let cur = self.items();
        let n = cur.len();
        let mut i: usize = 0;
        while i < n
            invariant
                self.wf(),
                n == cur.len(),
                i <= n,
                distinct_keys(cur@),
                assoc_map(cur@) == self.live(),
                self.live().contains_key(k@),
                forall|t: int|
                    0 <= t < i && (#[trigger] cur@[t]).0@ != k@ ==> !V::conflicts_spec(
                        cur@[t].1@,
                        v@,
                    ),
            decreases n - i,
        {
            if !cur[i].0.key_eq(k) {
                if cur[i].1.conflicts(&v) {
                    proof {
                        lemma_assoc_index(cur@, i as int);
                        assert(self.live().dom().contains(cur@[i as int].0@) && cur@[i as int].0@
                            != k@ && V::conflicts_spec(self.live()[cur@[i as int].0@], v@));
                    }
                    return Err(Conflict);
                }
            }
            i += 1;
        }
        proof {
            assert forall|k2: K::V|
                #[trigger] self.live().dom().contains(k2) && k2 != k@ implies !V::conflicts_spec(
                self.live()[k2],
                v@,
            ) by {
                lemma_assoc_contains(cur@, k2);
                let t = choose|t: int| 0 <= t < cur@.len() && (#[trigger] cur@[t]).0@ == k2;
                lemma_assoc_index(cur@, t);
            }
        }
        let ghost pre = *self;
        let ghost vv = v@;
        let ghost kk = k@;
        let key = k.key_clone();
        self.put_pending(key, Some(v));
        proof {
            assert(self.live() =~= pre.live().insert(kk, vv));
            assert(self.state() =~= (TableState {
                pending: pre.pending_map().insert(kk, Some(vv)),
                ..pre.state()
            }));
            if Self::unique_ok(pre.live()) {
                assert forall|k1: K::V, k2: K::V|
                    self.live().dom().contains(k1) && self.live().dom().contains(k2) && k1
                        != k2 implies !V::conflicts_spec(self.live()[k1], self.live()[k2]) by {
                    if k1 == kk {
                        V::lemma_conflicts_symmetric(vv, pre.live()[k2]);
                    } else if k2 == kk {
                        assert(!V::conflicts_spec(pre.live()[k1], vv));
                    }
                }
            }
        }
        Ok(1)
    }

    /// The views of the pending log, in the order its keys were first
    /// touched.
    pub closed spec fn pending_entries(self) -> Seq<(K::V, Option<V::V>)> {
        self.pending@.map_values(|e: (K, Net<V>)| (e.0@, e.1@))
    }

    /// The pending log denotes exactly the pending map, with one entry
    /// per touched key.
    pub proof fn lemma_pending_entries_agree(self)
        requires
            self.wf(),
        ensures
            entries_map(self.pending_entries()) == self.pending_map(),
            forall|i: int, j: int|
                0 <= i < j < self.pending_entries().len() ==> (#[trigger] self.pending_entries()[i]).0
                    != (#[trigger] self.pending_entries()[j]).0,
    {
        let entries = self.pending_entries();
        assert forall|i: int, j: int| 0 <= i < j < entries.len() implies (#[trigger] entries[i]).0
            != (#[trigger] entries[j]).0 by {
            assert(self.pending@[i].0@ != self.pending@[j].0@);
        }
        Self::lemma_entries_map_assoc(self.pending@);
    }

    proof fn lemma_entries_map_assoc(s: Seq<(K, Net<V>)>)
        ensures
            entries_map(s.map_values(|e: (K, Net<V>)| (e.0@, e.1@))) == assoc_map(s),
        decreases s.len(),
    {
        let mapped = s.map_values(|e: (K, Net<V>)| (e.0@, e.1@));
        if s.len() == 0 {
            assert(mapped.len() == 0);
        } else {
            Self::lemma_entries_map_assoc(s.drop_last());
            assert(mapped.drop_last() =~= s.drop_last().map_values(
                |e: (K, Net<V>)| (e.0@, e.1@),
            ));
            assert(mapped.last() == (s.last().0@, s.last().1@));
        }
    }

    /// The coalesced net change set, one segment of at most two rows per
    /// touched key: a retraction of the base row, an insertion of the final
    /// row, both, or neither, derived purely from (base state, net state).
    pub fn pending(&self) -> (r: Vec<(K, V, i64)>)
        requires
            self.wf(),
        ensures
            r@.map_values(|d: (K, V, i64)| (d.0@, d.1@, d.2 as int)) == diff_seq(
                self.base_map(),
                self.pending_entries(),
            ),
    {
        let ghost f = |d: (K, V, i64)| (d.0@, d.1@, d.2 as int);
        let mut out: Vec<(K, V, i64)> = Vec::new();
        let n = self.pending.len();
        let mut i: usize = 0;
        while i < n
            invariant
                self.wf(),
                n == self.pending.len(),
                i <= n,
                f == (|d: (K, V, i64)| (d.0@, d.1@, d.2 as int)),
                out@.map_values(f) == diff_seq(
                    self.base_map(),
                    self.pending_entries().take(i as int),
                ),
            decreases n - i,
        {
            let ghost pre_out = out@;
            let ghost entry = self.pending_entries()[i as int];
            let (k, net) = &self.pending[i];
            let bi = self.base_index(k);
            match (&net.live, bi) {
                (Some(v), Some(b)) => {
                    if !self.base[b].1.value_eq(v) {
                        out.push((k.key_clone(), self.base[b].1.value_clone(), -1));
                        out.push((k.key_clone(), v.value_clone(), 1));
                    }
                },
                (Some(v), None) => {
                    out.push((k.key_clone(), v.value_clone(), 1));
                },
                (None, Some(b)) => {
                    out.push((k.key_clone(), self.base[b].1.value_clone(), -1));
                },
                (None, None) => {},
            }
            proof {
                let entries = self.pending_entries();
                assert(entries.take(i + 1).drop_last() =~= entries.take(i as int));
                assert(entries.take(i + 1).last() == entry);
                assert(diff_seq(self.base_map(), entries.take(i + 1)) == diff_seq(
                    self.base_map(),
                    entries.take(i as int),
                ) + entry_diffs(self.base_map(), entry.0, entry.1));
                assert(out@.map_values(f) =~= pre_out.map_values(f) + entry_diffs(
                    self.base_map(),
                    entry.0,
                    entry.1,
                ));
            }
            i += 1;
        }
        proof {
            assert(self.pending_entries().take(n as int) =~= self.pending_entries());
        }
        out
    }
}

/// The rows that one key's net effect contributes to the commit batch,
/// derived purely from the key's base state and final state.
pub open spec fn entry_diffs<KV, VV>(base: Map<KV, VV>, k: KV, fin: Option<VV>) -> Seq<
    (KV, VV, int),
> {
    match fin {
        Some(v) => if base.contains_key(k) {
            if base[k] == v {
                Seq::empty()
            } else {
                seq![(k, base[k], -1int), (k, v, 1int)]
            }
        } else {
            seq![(k, v, 1int)]
        },
        None => if base.contains_key(k) {
            seq![(k, base[k], -1int)]
        } else {
            Seq::empty()
        },
    }
}

/// The whole commit diff of one table: the concatenation of each touched
/// key's contribution, in pending-log order.
pub open spec fn diff_seq<KV, VV>(base: Map<KV, VV>, pend: Seq<(KV, Option<VV>)>) -> Seq<
    (KV, VV, int),
>
    decreases pend.len(),
{
    if pend.len() == 0 {
        Seq::empty()
    } else {
        diff_seq(base, pend.drop_last()) + entry_diffs(base, pend.last().0, pend.last().1)
    }
}

/// The mapping that a sequence of (key view, net effect) pairs denotes.
pub open spec fn entries_map<KV, VV>(s: Seq<(KV, Option<VV>)>) -> Map<KV, Option<VV>>
    decreases s.len(),
{
    if s.len() == 0 {
        Map::empty()
    } else {
        entries_map(s.drop_last()).insert(s.last().0, s.last().1)
    }
}

/// A pending log overridden with a deletion for every key of the set.
pub open spec fn pending_with_deletes<KV, VV>(p: Map<KV, Option<VV>>, ks: Set<KV>) -> Map<
    KV,
    Option<VV>,
> {
    p.union_prefer_right(Map::new(|k: KV| ks.contains(k), |k: KV| None))
}

/// Diff coalescing: a key that the base snapshot never held contributes no
/// rows when its net effect is "absent" (for example it was inserted and
/// then deleted within the transaction), and exactly one insertion carrying
/// the final value when its net effect is "live" (for example it was
/// inserted and then updated), with no intermediate rows.
pub proof fn lemma_diff_coalescing<KV, VV>(base: Map<KV, VV>, k: KV, v2: VV)
    requires
        !base.contains_key(k),
    ensures
        entry_diffs(base, k, None::<VV>) == Seq::<(KV, VV, int)>::empty(),
        entry_diffs(base, k, Some(v2)) == seq![(k, v2, 1int)],
{
}

/// Under distinct keys, the entry list sends each entry's key to its net
/// effect.
pub proof fn lemma_entries_index<KV, VV>(s: Seq<(KV, Option<VV>)>, i: int)
    requires
        forall|a: int, b: int| 0 <= a < b < s.len() ==> (#[trigger] s[a]).0 != (#[trigger] s[b]).0,
        0 <= i < s.len(),
    ensures
        entries_map(s).contains_key(s[i].0),
        entries_map(s)[s[i].0] == s[i].1,
    decreases s.len(),
{
    if i < s.len() - 1 {
        lemma_entries_index(s.drop_last(), i);
        assert(s[i] == s.drop_last()[i]);
        assert(s[i].0 != s[s.len() - 1].0);
    }
}

/// The entry list carries a key exactly when some entry holds it.
pub proof fn lemma_entries_contains<KV, VV>(s: Seq<(KV, Option<VV>)>, k: KV)
    ensures
        entries_map(s).contains_key(k) <==> exists|i: int|
            0 <= i < s.len() && (#[trigger] s[i]).0 == k,
    decreases s.len(),
{
    if s.len() > 0 {
        lemma_entries_contains(s.drop_last(), k);
        if s.last().0 == k {
            assert(s[s.len() - 1].0 == k);
        } else {
            if exists|i: int| 0 <= i < s.len() - 1 && (#[trigger] s.drop_last()[i]).0 == k {
                let i = choose|i: int| 0 <= i < s.len() - 1 && (#[trigger] s.drop_last()[i]).0 == k;
                assert(s[i].0 == k);
            }
            if exists|i: int| 0 <= i < s.len() && (#[trigger] s[i]).0 == k {
                let i = choose|i: int| 0 <= i < s.len() && (#[trigger] s[i]).0 == k;
                assert(s.drop_last()[i].0 == k);
            }
        }
    }
}

/// Under distinct keys, the entry list holds exactly one entry per key it
/// denotes: the denoted map's domain has the list's length.
pub proof fn lemma_entries_len<KV, VV>(s: Seq<(KV, Option<VV>)>)
    requires
        forall|a: int, b: int| 0 <= a < b < s.len() ==> (#[trigger] s[a]).0 != (#[trigger] s[b]).0,
    ensures
        entries_map(s).dom().finite(),
        entries_map(s).dom().len() == s.len(),
    decreases s.len(),
{
    if s.len() > 0 {
        lemma_entries_len(s.drop_last());
        lemma_entries_contains(s.drop_last(), s.last().0);
        if entries_map(s.drop_last()).contains_key(s.last().0) {
            let i = choose|i: int|
                0 <= i < s.len() - 1 && (#[trigger] s.drop_last()[i]).0 == s.last().0;
            assert(s[i].0 != s[s.len() - 1].0);
            assert(false);
        }
        assert(entries_map(s).dom() =~= entries_map(s.drop_last()).dom().insert(s.last().0));
    } else {
        assert(entries_map(s).dom() =~= Set::<KV>::empty());
    }
}

/// Cascade atomicity at the commit batch: when every pending entry of a
/// table deletes a live base row — as after removing a cluster from a
/// transaction with no other pending work, where the pending entries are
/// the cluster row plus each cascaded replica and introspection row — the
/// table's commit diff carries exactly one retraction per removed row:
/// n rows removed commit as exactly n rows, atomically in the one batch.
pub proof fn lemma_cascade_batch<KV, VV>(base: Map<KV, VV>, pend: Seq<(KV, Option<VV>)>)
    requires
        forall|a: int, b: int|
            0 <= a < b < pend.len() ==> (#[trigger] pend[a]).0 != (#[trigger] pend[b]).0,
        forall|k: KV|
            #[trigger] entries_map(pend).contains_key(k) ==> entries_map(pend)[k] is None
                && base.contains_key(k),
    ensures
        diff_seq(base, pend).len() == pend.len(),
        entries_map(pend).dom().finite(),
        diff_seq(base, pend).len() == entries_map(pend).dom().len(),
        forall|i: int|
            0 <= i < pend.len() ==> diff_seq(base, pend)[i] == (
                (#[trigger] pend[i]).0,
                base[pend[i].0],
                -1int,
            ),
{
    assert forall|i: int| 0 <= i < pend.len() implies (#[trigger] pend[i]).1 is None
        && base.contains_key(pend[i].0) by {
        lemma_entries_index(pend, i);
    }
    lemma_diff_retractions(base, pend);
    lemma_entries_len(pend);
}

/// A pending log that only deletes base rows contributes exactly one
/// retraction per deleted key, so a cascade that removes n rows commits as
/// exactly n retractions in one batch.
pub proof fn lemma_diff_retractions<KV, VV>(base: Map<KV, VV>, pend: Seq<(KV, Option<VV>)>)
    requires
        forall|i: int|
            0 <= i < pend.len() ==> (#[trigger] pend[i]).1 is None && base.contains_key(
                pend[i].0,
            ),
    ensures
        diff_seq(base, pend).len() == pend.len(),
        forall|i: int|
            0 <= i < pend.len() ==> diff_seq(base, pend)[i] == (
                (#[trigger] pend[i]).0,
                base[pend[i].0],
                -1int,
            ),
    decreases pend.len(),
{
    if pend.len() > 0 {
        lemma_diff_retractions(base, pend.drop_last());
        assert(pend[pend.len() - 1].1 is None);
        assert(diff_seq(base, pend) == diff_seq(base, pend.drop_last()) + entry_diffs(
            base,
            pend.last().0,
            pend.last().1,
        ));
        assert forall|i: int| 0 <= i < pend.len() implies diff_seq(base, pend)[i] == (
            (#[trigger] pend[i]).0,
            base[pend[i].0],
            -1int,
        ) by {
            if i < pend.len() - 1 {
                assert(pend.drop_last()[i] == pend[i]);
                assert(diff_seq(base, pend)[i] == diff_seq(base, pend.drop_last())[i]);
            }
        }
    }
}

} // verus!
