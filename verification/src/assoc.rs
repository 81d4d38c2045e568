//! A finite map kept as a list of entries.
//!
//! Keys are compared through [`Key::same`], so the map works for keys the
//! verifier cannot hash or order. No key occurs twice, and entries keep the
//! order in which their keys were first inserted.

use vstd::prelude::*;

use crate::model::{Key, Model};

verus! {

/// Storing again what a map holds under a key leaves the map as it was.
pub proof fn lemma_insert_same<A, B>(m: Map<A, B>, k: A)
    requires
        m.contains_key(k),
    ensures
        m.insert(k, m[k]) == m,
{
    assert(m.insert(k, m[k]) =~= m);
}

/// Whether `values` lists what the map `m` holds under `keys`: the two run
/// in step, every key of the map occurs among `keys` once and no other does,
/// and each value is the one the map holds under its key.
pub open spec fn lists<A, B>(keys: Seq<A>, values: Seq<B>, m: Map<A, B>) -> bool {
    &&& keys.len() == values.len()
    &&& forall|i: int, j: int| 0 <= i < j < keys.len() ==> keys[i] != keys[j]
    &&& forall|i: int|
        0 <= i < keys.len() ==> m.contains_key(#[trigger] keys[i]) && m[keys[i]] == values[i]
    &&& forall|k: A| #[trigger]
        m.contains_key(k) ==> exists|i: int| 0 <= i < keys.len() && keys[i] == k
}

/// Whether `values` lists the values of the map `m`, one for each key, in
/// some order.
pub open spec fn lists_values<A, B>(values: Seq<B>, m: Map<A, B>) -> bool {
    exists|keys: Seq<A>| lists(keys, values, m)
}

/// Whether `entries` lists the entries of the map `m`, each once, in some
/// order.
pub open spec fn lists_entries<A, B>(entries: Seq<(A, B)>, m: Map<A, B>) -> bool {
    lists(
        Seq::new(entries.len(), |i: int| entries[i].0),
        Seq::new(entries.len(), |i: int| entries[i].1),
        m,
    )
}

/// Whether `positions` names, in ascending order, exactly the places at
/// which `flags` is set.
pub open spec fn picks(positions: Seq<usize>, flags: Seq<bool>) -> bool {
    &&& forall|j: int|
        0 <= j < positions.len() ==> (#[trigger] positions[j]) < flags.len()
            && flags[positions[j] as int]
    &&& forall|a: int, b: int| 0 <= a < b < positions.len() ==> positions[a] < positions[b]
    &&& forall|x: int|
        0 <= x < flags.len() && #[trigger] flags[x] ==> exists|j: int|
            0 <= j < positions.len() && positions[j] == x
}

/// The places at which `flags` is set, in ascending order.
pub fn flagged_positions(flags: &Vec<bool>) -> (r: Vec<usize>)
    ensures
        picks(r@, flags@),
{
    let mut out: Vec<usize> = Vec::new();
    let mut i: usize = 0;
    while i < flags.len()
        invariant
            i <= flags@.len(),
            forall|j: int|
                0 <= j < out@.len() ==> (#[trigger] out@[j]) < i && flags@[out@[j] as int],
            forall|a: int, b: int| 0 <= a < b < out@.len() ==> out@[a] < out@[b],
            forall|x: int|
                0 <= x < i && #[trigger] flags@[x] ==> exists|j: int|
                    0 <= j < out@.len() && out@[j] == x,
        decreases flags@.len() - i,
    {
        if flags[i] {
            let ghost before = out@;
            out.push(i);
            proof {
                assert forall|x: int| 0 <= x < i + 1 && #[trigger] flags@[x] implies exists|j: int|
                    0 <= j < out@.len() && out@[j] == x by {
                    if x < i {
                        let j = choose|j: int| 0 <= j < before.len() && before[j] == x;
                        assert(out@[j] == x);
                    } else {
                        assert(out@[before.len() as int] == x);
                    }
                }
            }
        }
        i += 1;
    }
    out
}

/// A finite map from `K` to `V`, kept as a list of entries without repeated
/// keys.
#[derive(Debug)]
pub struct AssocMap<K: Key, V: Model> {
    keys: Vec<K>,
    vals: Vec<V>,
}

impl<K: Key, V: Model> AssocMap<K, V> {
    #[verifier::type_invariant]
    spec fn inv(self) -> bool {
        &&& self.keys@.len() == self.vals@.len()
        &&& forall|i: int, j: int|
            0 <= i < j < self.keys@.len() ==> self.keys@[i].model() != self.keys@[j].model()
    }

    /// The keys, in entry order.
    pub closed spec fn key_seq(&self) -> Seq<K::M> {
        Seq::new(self.keys@.len(), |i: int| self.keys@[i].model())
    }

    /// The values, in entry order.
    pub closed spec fn value_seq(&self) -> Seq<V::M> {
        Seq::new(self.keys@.len(), |i: int| self.vals@[i].model())
    }

    /// Whether the entries are those of a map: as many values as keys, and no
    /// key twice. Every map that executable code can hold is well formed.
    pub open spec fn wf(&self) -> bool {
        &&& self.key_seq().len() == self.value_seq().len()
        &&& forall|i: int, j: int|
            0 <= i < j < self.key_seq().len() ==> self.key_seq()[i] != self.key_seq()[j]
    }

    /// Where a key stands among the entries, if it does.
    pub open spec fn index_of(&self, k: K::M) -> int {
        choose|i: int| 0 <= i < self.key_seq().len() && self.key_seq()[i] == k
    }

    /// Whether some entry has the key `k`.
    pub open spec fn contains(&self, k: K::M) -> bool {
        exists|i: int| 0 <= i < self.key_seq().len() && self.key_seq()[i] == k
    }

    /// An entry of a well-formed map is found under its key.
    pub proof fn lemma_entry(&self, i: int)
        requires
            self.wf(),
            0 <= i < self.key_seq().len(),
        ensures
            self.contains(self.key_seq()[i]),
            self.index_of(self.key_seq()[i]) == i,
            self.model().contains_key(self.key_seq()[i]),
            self.model()[self.key_seq()[i]] == self.value_seq()[i],
    {
        let k = self.key_seq()[i];
        assert(self.contains(k));
        let j = self.index_of(k);
        assert(0 <= j < self.key_seq().len() && self.key_seq()[j] == k);
        if j < i {
            assert(self.key_seq()[j] != self.key_seq()[i]);
        }
        if i < j {
            assert(self.key_seq()[i] != self.key_seq()[j]);
        }
    }

    /// An empty map.
    pub fn new() -> (r: Self)
        ensures
            r.wf(),
            r.key_seq() == Seq::<K::M>::empty(),
            r.value_seq() == Seq::<V::M>::empty(),
            r.model() == Map::<K::M, V::M>::empty(),
    {
        let r = AssocMap { keys: Vec::new(), vals: Vec::new() };
        assert(r.key_seq() =~= Seq::<K::M>::empty());
        assert(r.value_seq() =~= Seq::<V::M>::empty());
        assert(r.model() =~= Map::<K::M, V::M>::empty());
        r
    }

    /// The number of entries.
    pub fn len(&self) -> (n: usize)
        ensures
            self.wf(),
            n == self.key_seq().len(),
            n == self.value_seq().len(),
    {
        proof {
            use_type_invariant(self);
        }
        self.keys.len()
    }

    /// The key of the `i`-th entry.
    pub fn key_at(&self, i: usize) -> (r: &K)
        requires
            i < self.key_seq().len(),
        ensures
            r.model() == self.key_seq()[i as int],
    {
        &self.keys[i]
    }

    /// The value of the `i`-th entry.
    pub fn value_at(&self, i: usize) -> (r: &V)
        requires
            i < self.value_seq().len(),
        ensures
            r.model() == self.value_seq()[i as int],
    {
        proof {
            use_type_invariant(self);
        }
        &self.vals[i]
    }

    /// The value of the `i`-th entry, for changing it in place.
    pub fn value_mut(&mut self, i: usize) -> (r: &mut V)
        requires
            i < old(self).value_seq().len(),
        ensures
            r.model() == old(self).value_seq()[i as int],
            final(self).key_seq() == old(self).key_seq(),
            final(self).value_seq() == old(self).value_seq().update(i as int, final(r).model()),
    {
        proof {
            use_type_invariant(&*self);
        }
        &mut self.vals[i]
    }

    /// Where the entry with key `k` stands, if there is one.
    pub fn position(&self, k: &K) -> (r: Option<usize>)
        ensures
            self.wf(),
            match r {
                Some(i) => {
                    &&& i < self.key_seq().len()
                    &&& self.key_seq()[i as int] == k.model()
                    &&& self.index_of(k.model()) == i
                    &&& self.model().contains_key(k.model())
                    &&& self.model()[k.model()] == self.value_seq()[i as int]
                },
                None => !self.model().contains_key(k.model()),
            },
    {
        proof {
            use_type_invariant(self);
        }
        let n: usize = self.keys.len();
        let mut i: usize = 0;
        while i < n
            invariant
                self.wf(),
                n == self.keys@.len(),
                i <= n,
                forall|j: int| 0 <= j < i ==> self.key_seq()[j] != k.model(),
            decreases n - i,
        {
            if self.keys[i].same(k) {
                proof {
                    self.lemma_entry(i as int);
                }
                return Some(i);
            }
            i += 1;
        }
        None
    }

    /// Whether some entry has key `k`.
    pub fn contains_key(&self, k: &K) -> (r: bool)
        ensures
            r == self.model().contains_key(k.model()),
    {
        self.position(k).is_some()
    }

    /// The value stored under `k`, if any.
    pub fn get(&self, k: &K) -> (r: Option<&V>)
        ensures
            match r {
                Some(v) => self.model().contains_key(k.model()) && v.model() == self.model()[k.model()],
                None => !self.model().contains_key(k.model()),
            },
    {
        match self.position(k) {
            Some(i) => Some(self.value_at(i)),
            None => None,
        }
    }

    /// The value stored under `k`, if any, for changing it in place.
    pub fn get_mut(&mut self, k: &K) -> (r: Option<&mut V>)
        ensures
            match r {
                Some(v) => {
                    &&& old(self).model().contains_key(k.model())
                    &&& v.model() == old(self).model()[k.model()]
                    &&& final(self).key_seq() == old(self).key_seq()
                    &&& final(self).model() == old(self).model().insert(
                        k.model(),
                        final(v).model(),
                    )
                },
                None => {
                    &&& !old(self).model().contains_key(k.model())
                    &&& *final(self) == *old(self)
                },
            },
    {
        match self.position(k) {
            Some(i) => {
                let ghost before = *self;
                proof {
                    assert forall|after: Self|
                        after.key_seq() == before.key_seq() && after.value_seq()
                            == before.value_seq().update(
                            i as int,
                            after.value_seq()[i as int],
                        ) implies #[trigger] after.model() == before.model().insert(
                        k.model(),
                        after.value_seq()[i as int],
                    ) by {
                        Self::lemma_update(before, after, i as int);
                    }
                }
                let v = self.value_mut(i);
                Some(v)
            },
            None => None,
        }
    }

    /// Stores `v` under `k`. A key already present keeps its place and gets
    /// the new value; a new key goes to the end.
    pub fn insert(&mut self, k: K, v: V)
        ensures
            final(self).wf(),
            final(self).model() == old(self).model().insert(k.model(), v.model()),
            old(self).contains(k.model()) ==> {
                &&& final(self).key_seq() == old(self).key_seq()
                &&& final(self).value_seq() == old(self).value_seq().update(
                    old(self).index_of(k.model()),
                    v.model(),
                )
            },
            !old(self).contains(k.model()) ==> {
                &&& final(self).key_seq() == old(self).key_seq().push(k.model())
                &&& final(self).value_seq() == old(self).value_seq().push(v.model())
            },
    {
        proof {
            use_type_invariant(&*self);
        }
        let ghost before = *self;
        let found = self.position(&k);
        let mut taken = Self::new();
        core::mem::swap(self, &mut taken);
        let AssocMap { mut keys, mut vals } = taken;
        match found {
            Some(i) => {
                vals.set(i, v);
                *self = AssocMap { keys, vals };
                proof {
                    assert(self.key_seq() =~= before.key_seq());
                    assert(self.value_seq() =~= before.value_seq().update(i as int, v.model()));
                    Self::lemma_update(before, *self, i as int);
                }
            },
            None => {
                keys.push(k);
                vals.push(v);
                proof {
                    assert forall|i: int, j: int| 0 <= i < j < keys@.len() implies keys@[i].model()
                        != keys@[j].model() by {
                        if j == keys@.len() - 1 {
                            assert(before.key_seq()[i] == keys@[i].model());
                            assert(!before.contains(k.model()));
                        }
                    }
                }
                *self = AssocMap { keys, vals };
                proof {
                    assert(self.key_seq() =~= before.key_seq().push(k.model()));
                    assert(self.value_seq() =~= before.value_seq().push(v.model()));
                    assert(self.key_seq().drop_last() =~= before.key_seq());
                    assert(self.value_seq().drop_last() =~= before.value_seq());
                    Self::lemma_push(before, *self);
                }
            },
        }
    }

    /// Takes the entry with key `k` out, and returns its value. The other
    /// entries keep their order.
    pub fn remove(&mut self, k: &K) -> (r: Option<V>)
        ensures
            final(self).wf(),
            final(self).model() == old(self).model().remove(k.model()),
            match r {
                Some(v) => {
                    &&& old(self).model().contains_key(k.model())
                    &&& v.model() == old(self).model()[k.model()]
                    &&& final(self).key_seq() == old(self).key_seq().remove(
                        old(self).index_of(k.model()),
                    )
                    &&& final(self).value_seq() == old(self).value_seq().remove(
                        old(self).index_of(k.model()),
                    )
                },
                None => {
                    &&& !old(self).model().contains_key(k.model())
                    &&& final(self).key_seq() == old(self).key_seq()
                    &&& final(self).value_seq() == old(self).value_seq()
                },
            },
    {
        proof {
            use_type_invariant(&*self);
        }
        let ghost before = *self;
        let found = self.position(k);
        let mut taken = Self::new();
        core::mem::swap(self, &mut taken);
        let AssocMap { mut keys, mut vals } = taken;
        match found {
            Some(i) => {
                let _ = keys.remove(i);
                let v = vals.remove(i);
                *self = AssocMap { keys, vals };
                proof {
                    assert(self.key_seq() =~= before.key_seq().remove(i as int));
                    assert(self.value_seq() =~= before.value_seq().remove(i as int));
                    Self::lemma_remove(before, *self, i as int);
                }
                Some(v)
            },
            None => {
                *self = AssocMap { keys, vals };
                assert(self.key_seq() =~= before.key_seq());
                assert(self.value_seq() =~= before.value_seq());
                assert(self.model() =~= before.model().remove(k.model()));
                None
            },
        }
    }

    /// The part of the map whose entries are flagged in `flags`, which runs
    /// in step with the entries.
    pub open spec fn flagged(&self, flags: Seq<bool>) -> Map<K::M, V::M> {
        Map::new(
            |k: K::M| self.contains(k) && flags[self.index_of(k)],
            |k: K::M| self.value_seq()[self.index_of(k)],
        )
    }

    /// The entries of a well-formed map list it.
    pub proof fn lemma_lists(&self)
        requires
            self.wf(),
        ensures
            lists(self.key_seq(), self.value_seq(), self.model()),
    {
        assert forall|i: int| 0 <= i < self.key_seq().len() implies self.model().contains_key(
            #[trigger] self.key_seq()[i],
        ) && self.model()[self.key_seq()[i]] == self.value_seq()[i] by {
            self.lemma_entry(i);
        }
        assert forall|k: K::M| #[trigger] self.model().contains_key(k) implies exists|i: int|
            0 <= i < self.key_seq().len() && self.key_seq()[i] == k by {
            assert(self.contains(k));
        }
    }

    /// The entries at the flagged places list the flagged part of the map.
    pub proof fn lemma_picked_lists(&self, positions: Seq<usize>, flags: Seq<bool>)
        requires
            self.wf(),
            flags.len() == self.key_seq().len(),
            picks(positions, flags),
        ensures
            lists(
                Seq::new(positions.len(), |j: int| self.key_seq()[positions[j] as int]),
                Seq::new(positions.len(), |j: int| self.value_seq()[positions[j] as int]),
                self.flagged(flags),
            ),
    {
        let keys = Seq::new(positions.len(), |j: int| self.key_seq()[positions[j] as int]);
        let values = Seq::new(positions.len(), |j: int| self.value_seq()[positions[j] as int]);
        let part = self.flagged(flags);
        assert forall|a: int, b: int| 0 <= a < b < keys.len() implies keys[a] != keys[b] by {
            assert(positions[a] < positions[b]);
        }
        assert forall|i: int| 0 <= i < keys.len() implies part.contains_key(#[trigger] keys[i])
            && part[keys[i]] == values[i] by {
            self.lemma_entry(positions[i] as int);
        }
        assert forall|k: K::M| #[trigger] part.contains_key(k) implies exists|i: int|
            0 <= i < keys.len() && keys[i] == k by {
            let x = self.index_of(k);
            assert(flags[x]);
            let j = choose|j: int| 0 <= j < positions.len() && positions[j] == x;
            assert(keys[j] == k);
        }
    }

    /// The keys of a well-formed map are the keys of its entries, no more and
    /// no fewer.
    pub proof fn lemma_keys_cover(&self)
        requires
            self.wf(),
        ensures
            forall|k: K::M| self.model().contains_key(k) <==> self.key_seq().contains(k),
    {
        assert forall|k: K::M| self.model().contains_key(k) <==> self.key_seq().contains(
            k,
        ) by {
            if self.model().contains_key(k) {
                assert(self.contains(k));
                let i = self.index_of(k);
                assert(self.key_seq()[i] == k);
            }
            if self.key_seq().contains(k) {
                let i = choose|i: int| 0 <= i < self.key_seq().len() && self.key_seq()[i] == k;
                self.lemma_entry(i);
            }
        }
    }

    /// The keys, each once, in entry order.
    pub fn keys(&self) -> (r: Vec<K>)
        ensures
            self.wf(),
            r.model() == self.key_seq(),
    {
        let n: usize = self.len();
        let mut out: Vec<K> = Vec::new();
        let mut i: usize = 0;
        while i < n
            invariant
                self.wf(),
                n == self.key_seq().len(),
                i <= n,
                out@.len() == i,
                forall|j: int| 0 <= j < i ==> (#[trigger] out@[j]).model() == self.key_seq()[j],
            decreases n - i,
        {
            out.push(self.key_at(i).duplicate());
            i += 1;
        }
        proof {
            assert(out.model() =~= self.key_seq());
        }
        out
    }

    /// The entries, each once, in entry order.
    pub fn entries(&self) -> (r: Vec<(K, V)>)
        ensures
            lists_entries(r.model(), self.model()),
            r@.len() == self.key_seq().len(),
            forall|i: int|
                0 <= i < r@.len() ==> (#[trigger] r@[i]).0.model() == self.key_seq()[i]
                    && r@[i].1.model() == self.value_seq()[i],
    {
        let n: usize = self.len();
        let mut out: Vec<(K, V)> = Vec::new();
        let mut i: usize = 0;
        while i < n
            invariant
                self.wf(),
                n == self.key_seq().len(),
                i <= n,
                out@.len() == i,
                forall|j: int|
                    0 <= j < i ==> (#[trigger] out@[j]).0.model() == self.key_seq()[j]
                        && out@[j].1.model() == self.value_seq()[j],
            decreases n - i,
        {
            out.push((self.key_at(i).duplicate(), self.value_at(i).duplicate()));
            i += 1;
        }
        proof {
            self.lemma_lists();
            assert(Seq::new(out.model().len(), |i: int| out.model()[i].0) =~= self.key_seq());
            assert(Seq::new(out.model().len(), |i: int| out.model()[i].1) =~= self.value_seq());
        }
        out
    }

    /// The values of the entries flagged in `flags`, in entry order.
    pub fn select(&self, flags: &Vec<bool>) -> (r: Vec<V>)
        requires
            flags@.len() == self.value_seq().len(),
        ensures
            lists_values(r.model(), self.flagged(flags@)),
    {
        let n: usize = self.len();
        let positions = flagged_positions(flags);
        let mut out: Vec<V> = Vec::new();
        let mut j: usize = 0;
        while j < positions.len()
            invariant
                self.wf(),
                n == self.key_seq().len(),
                flags@.len() == n,
                picks(positions@, flags@),
                j <= positions@.len(),
                out@.len() == j,
                forall|t: int|
                    0 <= t < j ==> (#[trigger] out@[t]).model() == self.value_seq()[positions@[t] as int],
            decreases positions@.len() - j,
        {
            out.push(self.value_at(positions[j]).duplicate());
            j += 1;
        }
        proof {
            self.lemma_picked_lists(positions@, flags@);
            let keys = Seq::new(positions@.len(), |j: int| self.key_seq()[positions@[j] as int]);
            assert(out.model() =~= Seq::new(
                positions@.len(),
                |j: int| self.value_seq()[positions@[j] as int],
            ));
            assert(lists(keys, out.model(), self.flagged(flags@)));
        }
        out
    }

    /// The values, each once, in entry order.
    pub fn values(&self) -> (r: Vec<V>)
        ensures
            lists_values(r.model(), self.model()),
    {
        let n: usize = self.len();
        let mut flags: Vec<bool> = Vec::new();
        let mut i: usize = 0;
        while i < n
            invariant
                i <= n,
                flags@.len() == i,
                forall|j: int| 0 <= j < i ==> flags@[j],
            decreases n - i,
        {
            flags.push(true);
            i += 1;
        }
        proof {
            assert(self.flagged(flags@) =~= self.model());
        }
        self.select(&flags)
    }

    /// Replacing one value of a well-formed map gives the map with that key
    /// set anew.
    pub proof fn lemma_update(before: Self, after: Self, i: int)
        requires
            before.wf(),
            0 <= i < before.key_seq().len(),
            after.key_seq() == before.key_seq(),
            after.value_seq() == before.value_seq().update(i, after.value_seq()[i]),
        ensures
            after.wf(),
            after.model() == before.model().insert(before.key_seq()[i], after.value_seq()[i]),
    {
        let k = before.key_seq()[i];
        before.lemma_entry(i);
        after.lemma_entry(i);
        assert forall|x: K::M| after.contains(x) <==> before.contains(x) by {
            if before.contains(x) {
                let j = before.index_of(x);
                assert(after.key_seq()[j] == x);
            }
            if after.contains(x) {
                let j = after.index_of(x);
                assert(before.key_seq()[j] == x);
            }
        }
        assert forall|x: K::M| #[trigger] after.contains(x) && x != k implies after.model()[x]
            == before.model()[x] by {
            let j = before.index_of(x);
            before.lemma_entry(j);
            after.lemma_entry(j);
        }
        assert(after.model() =~= before.model().insert(k, after.value_seq()[i]));
    }

    /// Appending an entry with a fresh key gives the map with that key added.
    pub proof fn lemma_push(before: Self, after: Self)
        requires
            before.wf(),
            after.key_seq().len() == before.key_seq().len() + 1,
            after.value_seq().len() == after.key_seq().len(),
            after.key_seq().drop_last() == before.key_seq(),
            after.value_seq().drop_last() == before.value_seq(),
            !before.contains(after.key_seq().last()),
        ensures
            after.wf(),
            after.model() == before.model().insert(after.key_seq().last(), after.value_seq().last()),
    {
        let n = before.key_seq().len() as int;
        let k = after.key_seq().last();
        assert forall|i: int| 0 <= i < n implies after.key_seq()[i] == before.key_seq()[i]
            && after.value_seq()[i] == before.value_seq()[i] by {
            assert(after.key_seq().drop_last()[i] == before.key_seq()[i]);
            assert(after.value_seq().drop_last()[i] == before.value_seq()[i]);
        }
        assert forall|i: int, j: int| 0 <= i < j < after.key_seq().len() implies after.key_seq()[i]
            != after.key_seq()[j] by {
            if j == n {
                if after.key_seq()[i] == k {
                    assert(before.key_seq()[i] == k);
                    assert(before.contains(k));
                }
            }
        }
        assert forall|x: K::M| after.contains(x) <==> (before.contains(x) || x == k) by {
            if before.contains(x) {
                let j = before.index_of(x);
                assert(after.key_seq()[j] == x);
            }
            if x == k {
                assert(after.key_seq()[n] == x);
            }
            if after.contains(x) {
                let j = after.index_of(x);
                if j < n {
                    assert(before.key_seq()[j] == x);
                }
            }
        }
        assert forall|x: K::M| #[trigger] after.contains(x) implies after.model()[x] == (if x == k {
            after.value_seq().last()
        } else {
            before.model()[x]
        }) by {
            let j = after.index_of(x);
            after.lemma_entry(j);
            if x != k {
                assert(before.key_seq()[j] == x);
                before.lemma_entry(j);
            }
        }
        assert(after.model() =~= before.model().insert(k, after.value_seq().last()));
    }

    /// Dropping one entry of a well-formed map gives the map without that key.
    pub proof fn lemma_remove(before: Self, after: Self, i: int)
        requires
            before.wf(),
            0 <= i < before.key_seq().len(),
            after.key_seq() == before.key_seq().remove(i),
            after.value_seq() == before.value_seq().remove(i),
        ensures
            after.wf(),
            after.model() == before.model().remove(before.key_seq()[i]),
    {
        let k = before.key_seq()[i];
        let shift = |j: int| if j < i { j } else { j + 1 };
        assert forall|j: int| 0 <= j < after.key_seq().len() implies after.key_seq()[j]
            == before.key_seq()[shift(j)] && after.value_seq()[j] == before.value_seq()[shift(j)] by {}
        assert forall|a: int, b: int| 0 <= a < b < after.key_seq().len() implies after.key_seq()[a]
            != after.key_seq()[b] by {
            assert(before.key_seq()[shift(a)] != before.key_seq()[shift(b)]);
        }
        assert forall|x: K::M| after.contains(x) <==> (before.contains(x) && x != k) by {
            if before.contains(x) && x != k {
                let j = before.index_of(x);
                let t = if j < i { j } else { j - 1 };
                assert(after.key_seq()[t] == x);
            }
            if after.contains(x) {
                let j = after.index_of(x);
                assert(before.key_seq()[shift(j)] == x);
                if x == k {
                    if shift(j) < i {
                        assert(before.key_seq()[shift(j)] != before.key_seq()[i]);
                    } else {
                        assert(before.key_seq()[i] != before.key_seq()[shift(j)]);
                    }
                }
            }
        }
        assert forall|x: K::M| #[trigger] after.contains(x) implies after.model()[x]
            == before.model()[x] by {
            let j = after.index_of(x);
            after.lemma_entry(j);
            before.lemma_entry(shift(j));
        }
        assert(after.model() =~= before.model().remove(k));
    }
}

impl<K: Key, V: Model> Model for AssocMap<K, V> {
    type M = Map<K::M, V::M>;

    /// The map that the entries stand for.
    open spec fn model(&self) -> Map<K::M, V::M> {
        Map::new(|k: K::M| self.contains(k), |k: K::M| self.value_seq()[self.index_of(k)])
    }

    fn duplicate(&self) -> (r: Self) {
        let mut out: Self = Self::new();
        let n: usize = self.len();
        let mut i: usize = 0;
        while i < n
            invariant
                self.wf(),
                out.wf(),
                n == self.key_seq().len(),
                i <= n,
                out.key_seq() == self.key_seq().take(i as int),
                out.value_seq() == self.value_seq().take(i as int),
            decreases n - i,
        {
            let k = self.key_at(i).duplicate();
            let v = self.value_at(i).duplicate();
            proof {
                if out.contains(k.model()) {
                    let j = out.index_of(k.model());
                    assert(self.key_seq().take(i as int)[j] == self.key_seq()[j]);
                    assert(self.key_seq()[j] != self.key_seq()[i as int]);
                }
            }
            out.insert(k, v);
            proof {
                assert(self.key_seq().take(i as int).push(self.key_seq()[i as int])
                    =~= self.key_seq().take(i + 1));
                assert(self.value_seq().take(i as int).push(self.value_seq()[i as int])
                    =~= self.value_seq().take(i + 1));
            }
            i += 1;
        }
        proof {
            assert(self.key_seq().take(n as int) =~= self.key_seq());
            assert(self.value_seq().take(n as int) =~= self.value_seq());
            assert(out.model() =~= self.model());
        }
        out
    }
}

impl<K: Key, V: Model> Clone for AssocMap<K, V> {
    fn clone(&self) -> (r: Self)
        ensures
            r.model() == self.model(),
    {
        self.duplicate()
    }
}

} // verus!
