use vstd::prelude::*;

verus! {

/// The map that a sequence of `(key, value)` entries describes: a later entry
/// with the same key replaces an earlier one.
pub open spec fn entries_map<V>(s: Seq<(String, V)>) -> Map<Seq<char>, V>
    decreases s.len(),
{
    if s.len() == 0 {
        Map::empty()
    } else {
        entries_map(s.drop_last()).insert(s.last().0@, s.last().1)
    }
}

/// No two entries share a key.
pub open spec fn unique_keys<V>(s: Seq<(String, V)>) -> bool {
    forall|i: int, j: int|
        0 <= i < s.len() && 0 <= j < s.len() && (#[trigger] s[i]).0@ == (#[trigger] s[j]).0@
            ==> i == j
}

/// Every key of `entries_map(s)` comes from an entry, and each entry's value is
/// the value that the map holds for its key, when the keys are unique.
pub proof fn lemma_entries_map<V>(s: Seq<(String, V)>)
    requires
        unique_keys(s),
    ensures
        forall|k: Seq<char>|
            #[trigger] entries_map(s).contains_key(k) <==> exists|i: int|
                0 <= i < s.len() && (#[trigger] s[i]).0@ == k,
        forall|i: int|
            0 <= i < s.len() ==> #[trigger] entries_map(s).contains_key(s[i].0@) && entries_map(
                s,
            )[s[i].0@] == s[i].1,
    decreases s.len(),
{
    if s.len() > 0 {
        let p = s.drop_last();
        assert(unique_keys(p)) by {
            assert forall|i: int, j: int|
                0 <= i < p.len() && 0 <= j < p.len() && (#[trigger] p[i]).0@ == (#[trigger] p[j]).0@
                implies i == j by {
                assert(s[i] == p[i] && s[j] == p[j]);
            }
        }
        lemma_entries_map(p);
        assert forall|k: Seq<char>|
            #[trigger] entries_map(s).contains_key(k) implies exists|i: int|
                0 <= i < s.len() && (#[trigger] s[i]).0@ == k by {
            if k == s.last().0@ {
                assert(s[s.len() - 1].0@ == k);
            } else {
                assert(entries_map(p).contains_key(k));
                let i = choose|i: int| 0 <= i < p.len() && (#[trigger] p[i]).0@ == k;
                assert(s[i] == p[i]);
            }
        }
        assert forall|k: Seq<char>|
            (exists|i: int| 0 <= i < s.len() && (#[trigger] s[i]).0@ == k) implies #[trigger] entries_map(
                s,
            ).contains_key(k) by {
            let i = choose|i: int| 0 <= i < s.len() && (#[trigger] s[i]).0@ == k;
            if i < s.len() - 1 {
                assert(s[i] == p[i]);
                assert(entries_map(p).contains_key(k));
            }
        }
        assert forall|i: int| 0 <= i < s.len() implies #[trigger] entries_map(s).contains_key(
            s[i].0@,
        ) && entries_map(s)[s[i].0@] == s[i].1 by {
            if i < s.len() - 1 {
                assert(s[i] == p[i]);
                assert(entries_map(p).contains_key(p[i].0@));
                assert(s[i].0@ != s[s.len() - 1].0@);
            }
        }
    }
}

pub proof fn lemma_entries_map_finite<V>(s: Seq<(String, V)>)
    ensures
        entries_map(s).dom().finite(),
    decreases s.len(),
{
    if s.len() > 0 {
        lemma_entries_map_finite(s.drop_last());
    }
}

/// A finite map from string keys to values, kept as a vector of entries with
/// distinct keys. The order of the entries carries no meaning.
pub struct Table<V> {
    entries: Vec<(String, V)>,
}

impl<V> View for Table<V> {
    type V = Map<Seq<char>, V>;

    open spec fn view(&self) -> Map<Seq<char>, V> {
        entries_map(self.spec_entries())
    }
}

impl<V> Table<V> {
    /// The entries, in their stored order.
    pub closed spec fn spec_entries(&self) -> Seq<(String, V)> {
        self.entries@
    }

    /// Well-formed: no key is stored twice.
    pub open spec fn wf(&self) -> bool {
        unique_keys(self.spec_entries())
    }

    pub fn new() -> (r: Self)
        ensures
            r.wf(),
            r@ == Map::<Seq<char>, V>::empty(),
            r.spec_entries().len() == 0,
    {
        Table { entries: Vec::new() }
    }

    /// The number of entries, which is the number of keys.
    pub fn len(&self) -> (r: usize)
        ensures
            r == self.spec_entries().len(),
    {
        self.entries.len()
    }

    pub fn is_empty(&self) -> (r: bool)
        requires
            self.wf(),
        ensures
            r <==> self@.dom() =~= Set::empty(),
    {
        proof {
            lemma_entries_map(self.entries@);
        }
        if self.entries.len() == 0 {
            assert(self@.dom() =~= Set::empty());
            true
        } else {
            assert(self@.contains_key(self.entries@[0].0@));
            false
        }
    }

    /// Gives up the entries, in their stored order.
    pub fn into_entries(self) -> (r: Vec<(String, V)>)
        ensures
            r@ == self.spec_entries(),
    {
        self.entries
    }

    /// The entry at position `i`.
    pub fn entry_at(&self, i: usize) -> (r: &(String, V))
        requires
            i < self.spec_entries().len(),
        ensures
            *r == self.spec_entries()[i as int],
    {
        &self.entries[i]
    }

    /// The position of `key`, if it is present.
    pub fn find(&self, key: &String) -> (r: Option<usize>)
        requires
            self.wf(),
        ensures
            r matches Some(i) ==> i < self.spec_entries().len() && self.spec_entries()[i as int].0@
                == key@,
            r is None <==> !self@.contains_key(key@),
    {
        proof {
            lemma_entries_map(self.entries@);
        }
        let mut i: usize = 0;
        while i < self.entries.len()
            invariant
                i <= self.entries@.len(),
                unique_keys(self.entries@),
                forall|j: int| 0 <= j < i ==> (#[trigger] self.entries@[j]).0@ != key@,
            decreases self.entries@.len() - i,
        {
            if self.entries[i].0 == *key {
                proof {
                    lemma_entries_map(self.entries@);
                }
                return Some(i);
            }
            i = i + 1;
        }
        None
    }

    /// The value stored under `key`.
    pub fn get(&self, key: &String) -> (r: Option<&V>)
        requires
            self.wf(),
        ensures
            r matches Some(v) ==> self@.contains_key(key@) && *v == self@[key@],
            r is None <==> !self@.contains_key(key@),
    {
        proof {
            lemma_entries_map(self.entries@);
        }
        match self.find(key) {
            Some(i) => Some(&self.entries[i].1),
            None => None,
        }
    }

    /// Stores `value` under `key`, replacing what was there.
    pub fn insert(&mut self, key: String, value: V)
        requires
            old(self).wf(),
        ensures
            final(self).wf(),
            final(self)@ == old(self)@.insert(key@, value),
    {
        proof {
            lemma_entries_map(self.entries@);
        }
        let ghost k = key@;
        match self.find(&key) {
            Some(i) => {
                let ghost s0 = self.entries@;
                self.entries.set(i, (key, value));
                let ghost s1 = self.entries@;
                assert(unique_keys(s1)) by {
                    assert forall|a: int, b: int|
                        0 <= a < s1.len() && 0 <= b < s1.len() && (#[trigger] s1[a]).0@ == (
                        #[trigger] s1[b]).0@ implies a == b by {
                        assert(s0[a].0@ == s1[a].0@ && s0[b].0@ == s1[b].0@);
                    }
                }
                proof {
                    lemma_entries_map(s1);
                }
                assert(entries_map(s1) =~= entries_map(s0).insert(k, value)) by {
                    assert forall|x: Seq<char>| #[trigger]
                        entries_map(s1).contains_key(x) implies entries_map(s0).insert(
                        k,
                        value,
                    ).contains_key(x) by {
                        let j = choose|j: int| 0 <= j < s1.len() && (#[trigger] s1[j]).0@ == x;
                        assert(s0[j].0@ == x);
                    }
                    assert forall|x: Seq<char>| #[trigger]
                        entries_map(s0).insert(k, value).contains_key(x) implies entries_map(
                        s1,
                    ).contains_key(x) by {
                        if x != k {
                            let j = choose|j: int| 0 <= j < s0.len() && (#[trigger] s0[j]).0@ == x;
                            assert(s1[j].0@ == x);
                        } else {
                            assert(s1[i as int].0@ == x);
                        }
                    }
                    assert forall|x: Seq<char>| #[trigger]
                        entries_map(s1).contains_key(x) implies entries_map(s1)[x] == entries_map(
                        s0,
                    ).insert(k, value)[x] by {
                        let j = choose|j: int| 0 <= j < s1.len() && (#[trigger] s1[j]).0@ == x;
                        if j != i {
                            assert(s0[j] == s1[j]);
                        }
                    }
                }
            },
            None => {
                let ghost s0 = self.entries@;
                self.entries.push((key, value));
                let ghost s1 = self.entries@;
                assert(s1.drop_last() =~= s0);
                assert(unique_keys(s1)) by {
                    assert forall|a: int, b: int|
                        0 <= a < s1.len() && 0 <= b < s1.len() && (#[trigger] s1[a]).0@ == (
                        #[trigger] s1[b]).0@ implies a == b by {
                        if a < s0.len() {
                            assert(s1[a] == s0[a]);
                        }
                        if b < s0.len() {
                            assert(s1[b] == s0[b]);
                        }
                    }
                }
            },
        }
    }

    /// Takes the value stored under `key` out of the table.
    pub fn remove(&mut self, key: &String) -> (r: Option<V>)
        requires
            old(self).wf(),
        ensures
            final(self).wf(),
            final(self)@ == old(self)@.remove(key@),
            r matches Some(v) ==> old(self)@.contains_key(key@) && v == old(self)@[key@],
            r is None <==> !old(self)@.contains_key(key@),
    {
        proof {
            lemma_entries_map(self.entries@);
        }
        let ghost k = key@;
        match self.find(key) {
            Some(i) => {
                let ghost s0 = self.entries@;
                let ghost last = s0.len() - 1;
                let (_, v) = self.entries.swap_remove(i);
                let ghost s1 = self.entries@;
                assert(s1 =~= s0.update(i as int, s0.last()).drop_last());
                assert(unique_keys(s1)) by {
                    assert forall|a: int, b: int|
                        0 <= a < s1.len() && 0 <= b < s1.len() && (#[trigger] s1[a]).0@ == (
                        #[trigger] s1[b]).0@ implies a == b by {
                        let a0 = if a == i { last } else { a };
                        let b0 = if b == i { last } else { b };
                        assert(s1[a] == s0[a0] && s1[b] == s0[b0]);
                    }
                }
                proof {
                    lemma_entries_map(s1);
                }
                assert(entries_map(s1) =~= entries_map(s0).remove(k)) by {
                    assert forall|x: Seq<char>| #[trigger]
                        entries_map(s1).contains_key(x) implies entries_map(s0).remove(
                        k,
                    ).contains_key(x) && entries_map(s1)[x] == entries_map(s0)[x] by {
                        let j = choose|j: int| 0 <= j < s1.len() && (#[trigger] s1[j]).0@ == x;
                        let j0 = if j == i { last } else { j };
                        assert(s1[j] == s0[j0]);
                        assert(j0 != i);
                        assert(s0[j0].0@ != s0[i as int].0@);
                        assert(entries_map(s1).contains_key(s1[j].0@));
                        assert(entries_map(s0).contains_key(s0[j0].0@));
                    }
                    assert forall|x: Seq<char>| #[trigger]
                        entries_map(s0).remove(k).contains_key(x) implies entries_map(
                        s1,
                    ).contains_key(x) by {
                        let j0 = choose|j: int| 0 <= j < s0.len() && (#[trigger] s0[j]).0@ == x;
                        assert(j0 != i);
                        let j = if j0 == last { i as int } else { j0 };
                        assert(s1[j] == s0[j0]);
                    }
                }
                Some(v)
            },
            None => {
                assert(self@ =~= self@.remove(k));
                None
            },
        }
    }
}

} // verus!
