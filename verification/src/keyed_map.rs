//! A finite map keyed by byte strings (account addresses and asset symbols),
//! kept as an association list whose keys never repeat.

use vstd::prelude::*;

verus! {

/// `true` when the two byte strings are equal.
pub fn bytes_eq(a: &Vec<u8>, b: &Vec<u8>) -> (same: bool)
    ensures
        same == (a@ == b@),
{
    if a.len() != b.len() {
        return false;
    }
    let mut i: usize = 0;
    while i < a.len()
        invariant
            a.len() == b.len(),
            i <= a.len(),
            forall|j: int| 0 <= j < i ==> a@[j] == b@[j],
        decreases a.len() - i,
    {
        if a[i] != b[i] {
            return false;
        }
        i = i + 1;
    }
    assert(a@ =~= b@);
    true
}

/// A fresh copy of a byte string.
pub fn copy_bytes(a: &Vec<u8>) -> (copy: Vec<u8>)
    ensures
        copy@ == a@,
{
    let mut copy: Vec<u8> = Vec::new();
    let mut i: usize = 0;
    while i < a.len()
        invariant
            i <= a.len(),
            copy@ == a@.take(i as int),
        decreases a.len() - i,
    {
        copy.push(a[i]);
        assert(a@.take(i + 1) =~= a@.take(i as int).push(a@[i as int]));
        i = i + 1;
    }
    assert(a@.take(a.len() as int) =~= a@);
    copy
}

/// Sum of `f` over the values of an association list.
pub open spec fn sum_values<V>(entries: Seq<(Vec<u8>, V)>, f: spec_fn(V) -> int) -> int
    decreases entries.len(),
{
    if entries.len() == 0 {
        0
    } else {
        sum_values(entries.drop_last(), f) + f(entries.last().1)
    }
}

proof fn lemma_sum_values_update<V>(
    entries: Seq<(Vec<u8>, V)>,
    i: int,
    entry: (Vec<u8>, V),
    f: spec_fn(V) -> int,
)
    requires
        0 <= i < entries.len(),
    ensures
        sum_values(entries.update(i, entry), f) == sum_values(entries, f) - f(entries[i].1) + f(
            entry.1,
        ),
    decreases entries.len(),
{
    if i < entries.len() - 1 {
        assert(entries.update(i, entry).drop_last() =~= entries.drop_last().update(i, entry));
        lemma_sum_values_update(entries.drop_last(), i, entry, f);
    } else {
        assert(entries.update(i, entry).drop_last() =~= entries.drop_last());
    }
}

proof fn lemma_sum_values_push<V>(entries: Seq<(Vec<u8>, V)>, entry: (Vec<u8>, V), f: spec_fn(V) -> int)
    ensures
        sum_values(entries.push(entry), f) == sum_values(entries, f) + f(entry.1),
{
    assert(entries.push(entry).drop_last() =~= entries);
}

proof fn lemma_sum_values_remove<V>(entries: Seq<(Vec<u8>, V)>, i: int, f: spec_fn(V) -> int)
    requires
        0 <= i < entries.len(),
    ensures
        sum_values(entries.remove(i), f) == sum_values(entries, f) - f(entries[i].1),
    decreases entries.len(),
{
    if i < entries.len() - 1 {
        assert(entries.remove(i).drop_last() =~= entries.drop_last().remove(i));
        lemma_sum_values_remove(entries.drop_last(), i, f);
    } else {
        assert(entries.remove(i) =~= entries.drop_last());
    }
}

proof fn lemma_sum_values_nonneg<V>(entries: Seq<(Vec<u8>, V)>, f: spec_fn(V) -> int)
    requires
        forall|v: V| #[trigger] f(v) >= 0,
    ensures
        sum_values(entries, f) >= 0,
    decreases entries.len(),
{
    if entries.len() > 0 {
        lemma_sum_values_nonneg(entries.drop_last(), f);
        assert(f(entries.last().1) >= 0);
    }
}

/// Map from byte-string keys to values; no key occurs twice.
pub struct KeyedMap<V> {
    entries: Vec<(Vec<u8>, V)>,
}

impl<V> KeyedMap<V> {
    /// The keys, in insertion order.
    pub closed spec fn key_seq(&self) -> Seq<Seq<u8>> {
        self.entries@.map_values(|e: (Vec<u8>, V)| e.0@)
    }

    #[verifier::type_invariant]
    spec fn keys_distinct(&self) -> bool {
        self.key_seq().no_duplicates()
    }

    /// Sum of `f` over the stored values.
    pub closed spec fn total(&self, f: spec_fn(V) -> int) -> int {
        sum_values(self.entries@, f)
    }

    proof fn lemma_view_at(&self, i: int)
        requires
            self.keys_distinct(),
            0 <= i < self.entries@.len(),
        ensures
            self@.contains_key(self.entries@[i].0@),
            self@[self.entries@[i].0@] == self.entries@[i].1,
    {
        let k = self.entries@[i].0@;
        assert(self.key_seq()[i] == k);
        let j = choose|j: int| 0 <= j < self.entries@.len() && self.key_seq()[j] == k;
        assert(self.key_seq()[j] == k);
    }

    proof fn lemma_absent(&self, k: Seq<u8>)
        requires
            forall|i: int| 0 <= i < self.entries@.len() ==> #[trigger] self.entries@[i].0@ != k,
        ensures
            !self@.contains_key(k),
    {
        if self@.contains_key(k) {
            let j = choose|j: int| 0 <= j < self.entries@.len() && self.key_seq()[j] == k;
            assert(self.entries@[j].0@ == k);
        }
    }

    proof fn lemma_finite_len(&self)
        requires
            self.keys_distinct(),
        ensures
            self@.dom().finite(),
            self@.dom().len() == self.entries@.len(),
    {
        assert(self@.dom() =~= self.key_seq().to_set());
        self.key_seq().unique_seq_to_set();
    }

    proof fn lemma_total_covers(&self, key: Seq<u8>, f: spec_fn(V) -> int)
        requires
            self.keys_distinct(),
            self@.contains_key(key),
            forall|v: V| #[trigger] f(v) >= 0,
        ensures
            self.total(f) >= f(self@[key]),
    {
        let i = choose|i: int| 0 <= i < self.entries@.len() && self.key_seq()[i] == key;
        assert(self.entries@[i].0@ == key);
        self.lemma_view_at(i);
        lemma_sum_values_remove(self.entries@, i, f);
        lemma_sum_values_nonneg(self.entries@.remove(i), f);
    }

    /// An empty map.
    pub fn new() -> (m: Self)
        ensures
            m@ == Map::<Seq<u8>, V>::empty(),
            forall|f: spec_fn(V) -> int| #[trigger] m.total(f) == 0,
    {
        let m = KeyedMap { entries: Vec::new() };
        assert(m@ =~= Map::<Seq<u8>, V>::empty());
        m
    }

    /// Number of keys.
    pub fn len(&self) -> (n: usize)
        ensures
            self@.dom().finite(),
            n == self@.len(),
    {
        proof {
            use_type_invariant(self);
            self.lemma_finite_len();
        }
        self.entries.len()
    }

    fn find(&self, key: &Vec<u8>) -> (found: Option<usize>)
        ensures
            found matches Some(i) ==> i < self.entries@.len() && self.entries@[i as int].0@ == key@,
            found is None ==> forall|i: int|
                0 <= i < self.entries@.len() ==> #[trigger] self.entries@[i].0@ != key@,
    {
        let mut i: usize = 0;
        while i < self.entries.len()
            invariant
                i <= self.entries@.len(),
                forall|j: int| 0 <= j < i ==> #[trigger] self.entries@[j].0@ != key@,
            decreases self.entries@.len() - i,
        {
            if bytes_eq(&self.entries[i].0, key) {
                return Some(i);
            }
            i = i + 1;
        }
        None
    }

    /// `true` when `key` has a value.
    pub fn contains_key(&self, key: &Vec<u8>) -> (present: bool)
        ensures
            present == self@.contains_key(key@),
    {
        proof {
            use_type_invariant(self);
        }
        match self.find(key) {
            Some(i) => {
                proof {
                    self.lemma_view_at(i as int);
                }
                true
            },
            None => {
                proof {
                    self.lemma_absent(key@);
                }
                false
            },
        }
    }

    /// The value stored under `key`, if any.
    pub fn get(&self, key: &Vec<u8>) -> (value: Option<&V>)
        ensures
            value is Some <==> self@.contains_key(key@),
            value matches Some(v) ==> *v == self@[key@],
            value matches Some(v) ==> forall|f: spec_fn(V) -> int|
                (forall|x: V| #[trigger] f(x) >= 0) ==> #[trigger] self.total(f) >= f(*v),
    {
        proof {
            use_type_invariant(self);
        }
        match self.find(key) {
            Some(i) => {
                proof {
                    self.lemma_view_at(i as int);
                    assert forall|f: spec_fn(V) -> int|
                        (forall|x: V| #[trigger] f(x) >= 0) implies #[trigger] self.total(f) >= f(
                        self.entries@[i as int].1,
                    ) by {
                        self.lemma_total_covers(key@, f);
                    }
                }
                Some(&self.entries[i].1)
            },
            None => {
                proof {
                    self.lemma_absent(key@);
                }
                None
            },
        }
    }

    /// The value at position `i` of the insertion order, with its key.
    pub fn entry_at(&self, i: usize) -> (entry: (&Vec<u8>, &V))
        requires
            i < self@.len(),
        ensures
            self@.contains_key(entry.0@),
            self@[entry.0@] == *entry.1,
    {
        proof {
            use_type_invariant(self);
            self.lemma_finite_len();
            self.lemma_view_at(i as int);
        }
        (&self.entries[i].0, &self.entries[i].1)
    }

    /// Store `value` under `key`, replacing any earlier value.
    pub fn set(&mut self, key: Vec<u8>, value: V)
        ensures
            final(self)@ == old(self)@.insert(key@, value),
            forall|f: spec_fn(V) -> int| #[trigger]
                final(self).total(f) == old(self).total(f) - (if old(self)@.contains_key(key@) {
                    f(old(self)@[key@])
                } else {
                    0
                }) + f(value),
    {
        proof {
            use_type_invariant(&*self);
        }
        let ghost k = key@;
        let ghost old_entries = self.entries@;
        match self.find(&key) {
            Some(i) => {
                proof {
                    self.lemma_view_at(i as int);
                }
                let ghost old_self = *self;
                let mut entries: Vec<(Vec<u8>, V)> = Vec::new();
                std::mem::swap(&mut entries, &mut self.entries);
                entries.set(i, (key, value));
                proof {
                    let probe = KeyedMap { entries };
                    assert(old_self.key_seq()[i as int] == k);
                    assert(probe.key_seq() =~= old_self.key_seq());
                }
                self.entries = entries;
                proof {
                    use_type_invariant(&*self);
                    let new_entries = old_entries.update(i as int, (self.entries@[i as int].0, value));
                    assert(self.entries@ =~= new_entries);
                    assert(self.key_seq() =~= old_self.key_seq().update(i as int, k));
                    assert(self.keys_distinct());
                    assert forall|kk: Seq<u8>| #![trigger self@.dom().contains(kk)] #![trigger self@[kk]] true implies (self@.contains_key(kk)
                        == old_self@.insert(k, value).contains_key(kk)) && (self@.contains_key(kk)
                        ==> self@[kk] == old_self@.insert(k, value)[kk]) by {
                        if kk == k {
                            self.lemma_view_at(i as int);
                        } else if old_self@.contains_key(kk) {
                            let j = choose|j: int|
                                0 <= j < old_entries.len() && old_self.key_seq()[j] == kk;
                            assert(old_entries[j].0@ == kk);
                            old_self.lemma_view_at(j);
                            self.lemma_view_at(j);
                        } else {
                            assert forall|j: int| 0 <= j < self.entries@.len() implies #[trigger] self.entries@[j].0@ != kk by {
                                if j != i {
                                    assert(old_self.key_seq()[j] == self.entries@[j].0@);
                                }
                            }
                            self.lemma_absent(kk);
                        }
                    }
                    assert(self@.dom() =~= old_self@.insert(k, value).dom());
                    assert(self@ =~= old_self@.insert(k, value));
                    assert forall|f: spec_fn(V) -> int| #[trigger] self.total(f) == old_self.total(f)
                        - f(old_self@[k]) + f(value) by {
                        lemma_sum_values_update(old_entries, i as int, (self.entries@[i as int].0, value), f);
                    }
                }
            },
            None => {
                proof {
                    self.lemma_absent(k);
                }
                let ghost old_self = *self;
                let mut entries: Vec<(Vec<u8>, V)> = Vec::new();
                std::mem::swap(&mut entries, &mut self.entries);
                entries.push((key, value));
                proof {
                    let probe = KeyedMap { entries };
                    assert(probe.key_seq() =~= old_self.key_seq().push(k));
                    assert(old_self.key_seq().no_duplicates());
                    assert(probe.key_seq().no_duplicates());
                }
                self.entries = entries;
                proof {
                    use_type_invariant(&*self);
                    assert(self.key_seq() =~= old_self.key_seq().push(k));
                    assert(self.keys_distinct());
                    let n = old_entries.len() as int;
                    assert forall|kk: Seq<u8>| #![trigger self@.dom().contains(kk)] #![trigger self@[kk]] true implies (self@.contains_key(kk)
                        == old_self@.insert(k, value).contains_key(kk)) && (self@.contains_key(kk)
                        ==> self@[kk] == old_self@.insert(k, value)[kk]) by {
                        if kk == k {
                            self.lemma_view_at(n);
                        } else if old_self@.contains_key(kk) {
                            let j = choose|j: int|
                                0 <= j < old_entries.len() && old_self.key_seq()[j] == kk;
                            assert(old_entries[j].0@ == kk);
                            old_self.lemma_view_at(j);
                            self.lemma_view_at(j);
                        } else {
                            assert forall|j: int| 0 <= j < self.entries@.len() implies #[trigger] self.entries@[j].0@ != kk by {
                                if j < n {
                                    assert(old_self.key_seq()[j] == self.entries@[j].0@);
                                }
                            }
                            self.lemma_absent(kk);
                        }
                    }
                    assert(self@.dom() =~= old_self@.insert(k, value).dom());
                    assert(self@ =~= old_self@.insert(k, value));
                    assert forall|f: spec_fn(V) -> int| #[trigger] self.total(f) == old_self.total(f)
                        + f(value) by {
                        lemma_sum_values_push(old_entries, self.entries@[n], f);
                    }
                }
            },
        }
    }

    /// Remove `key` and its value, if present.
    pub fn remove(&mut self, key: &Vec<u8>)
        ensures
            final(self)@ == old(self)@.remove(key@),
            forall|f: spec_fn(V) -> int| #[trigger]
                final(self).total(f) == old(self).total(f) - (if old(self)@.contains_key(key@) {
                    f(old(self)@[key@])
                } else {
                    0
                }),
    {
        proof {
            use_type_invariant(&*self);
        }
        let ghost k = key@;
        let ghost old_entries = self.entries@;
        match self.find(key) {
            Some(i) => {
                proof {
                    self.lemma_view_at(i as int);
                }
                let ghost old_self = *self;
                let mut entries: Vec<(Vec<u8>, V)> = Vec::new();
                std::mem::swap(&mut entries, &mut self.entries);
                let _removed = entries.remove(i);
                proof {
                    let probe = KeyedMap { entries };
                    assert(probe.key_seq() =~= old_self.key_seq().remove(i as int));
                    assert(old_self.key_seq().no_duplicates());
                    assert(probe.key_seq().no_duplicates());
                }
                self.entries = entries;
                proof {
                    use_type_invariant(&*self);
                    assert(self.key_seq() =~= old_self.key_seq().remove(i as int));
                    assert(self.keys_distinct());
                    assert forall|kk: Seq<u8>| #![trigger self@.dom().contains(kk)] #![trigger self@[kk]] true implies (self@.contains_key(kk)
                        == old_self@.remove(k).contains_key(kk)) && (self@.contains_key(kk)
                        ==> self@[kk] == old_self@.remove(k)[kk]) by {
                        if kk == k {
                            assert(old_self.key_seq()[i as int] == k);
                            assert forall|j: int| 0 <= j < self.entries@.len() implies #[trigger] self.entries@[j].0@ != kk by {
                                if j < i {
                                    assert(old_self.key_seq()[j] == self.entries@[j].0@);
                                } else {
                                    assert(old_self.key_seq()[j + 1] == self.entries@[j].0@);
                                }
                            }
                            self.lemma_absent(kk);
                        } else if old_self@.contains_key(kk) {
                            let j = choose|j: int|
                                0 <= j < old_entries.len() && old_self.key_seq()[j] == kk;
                            assert(old_entries[j].0@ == kk);
                            old_self.lemma_view_at(j);
                            if j < i {
                                self.lemma_view_at(j);
                            } else {
                                self.lemma_view_at(j - 1);
                            }
                        } else {
                            assert forall|j: int| 0 <= j < self.entries@.len() implies #[trigger] self.entries@[j].0@ != kk by {
                                if j < i {
                                    assert(old_self.key_seq()[j] == self.entries@[j].0@);
                                } else {
                                    assert(old_self.key_seq()[j + 1] == self.entries@[j].0@);
                                }
                            }
                            self.lemma_absent(kk);
                        }
                    }
                    assert(self@.dom() =~= old_self@.remove(k).dom());
                    assert(self@ =~= old_self@.remove(k));
                    assert forall|f: spec_fn(V) -> int| #[trigger] self.total(f) == old_self.total(f)
                        - f(old_self@[k]) by {
                        lemma_sum_values_remove(old_entries, i as int, f);
                    }
                }
            },
            None => {
                proof {
                    self.lemma_absent(k);
                    assert(self@ =~= old(self)@.remove(k));
                }
            },
        }
    }
}

impl<V> View for KeyedMap<V> {
    type V = Map<Seq<u8>, V>;

    closed spec fn view(&self) -> Map<Seq<u8>, V> {
        Map::new(
            |k: Seq<u8>| exists|i: int| 0 <= i < self.entries@.len() && self.key_seq()[i] == k,
            |k: Seq<u8>|
                self.entries@[choose|i: int|
                    0 <= i < self.entries@.len() && self.key_seq()[i] == k].1,
        )
    }
}

} // verus!
