//! A small map from folder identifiers to values, kept as a list of entries
//! with distinct keys.
use vstd::prelude::*;
use vstd::string::*;

verus! {

/// The map that the entries `e` describe: a later entry for a key wins.
pub open spec fn map_of<V>(e: Seq<(String, V)>) -> Map<Seq<char>, V>
    decreases e.len(),
{
    if e.len() == 0 {
        Map::empty()
    } else {
        map_of(e.drop_last()).insert(e.last().0@, e.last().1)
    }
}

/// No two entries of `e` have the same key.
pub open spec fn distinct_keys<V>(e: Seq<(String, V)>) -> bool {
    forall|i: int, j: int| 0 <= i < j < e.len() ==> (#[trigger] e[i]).0@ != (#[trigger] e[j]).0@
}

proof fn lemma_map_of_dom<V>(e: Seq<(String, V)>, k: Seq<char>)
    ensures
        map_of(e).dom().contains(k) <==> exists|i: int| 0 <= i < e.len() && (#[trigger] e[i]).0@ == k,
    decreases e.len(),
{
    if e.len() > 0 {
        lemma_map_of_dom(e.drop_last(), k);
        if map_of(e.drop_last()).dom().contains(k) {
            let i = choose|i: int| 0 <= i < e.drop_last().len() && (#[trigger] e.drop_last()[i]).0@ == k;
            assert(e[i] == e.drop_last()[i]);
        }
        if exists|i: int| 0 <= i < e.len() && (#[trigger] e[i]).0@ == k {
            let i = choose|i: int| 0 <= i < e.len() && (#[trigger] e[i]).0@ == k;
            if i < e.len() - 1 {
                assert(e.drop_last()[i] == e[i]);
            }
        }
    }
}

proof fn lemma_map_of_value<V>(e: Seq<(String, V)>, i: int)
    requires
        distinct_keys(e),
        0 <= i < e.len(),
    ensures
        map_of(e).dom().contains(e[i].0@),
        map_of(e)[e[i].0@] == e[i].1,
    decreases e.len(),
{
    if i < e.len() - 1 {
        let d = e.drop_last();
        assert(d[i] == e[i]);
        assert forall|a: int, b: int| 0 <= a < b < d.len() implies (#[trigger] d[a]).0@ != (
        #[trigger] d[b]).0@ by {
            assert(d[a] == e[a] && d[b] == e[b]);
        }
        lemma_map_of_value(d, i);
        assert(e[i].0@ != e[e.len() - 1].0@);
    }
}

proof fn lemma_distinct_drop_last<V>(e: Seq<(String, V)>)
    requires
        distinct_keys(e),
        e.len() > 0,
    ensures
        distinct_keys(e.drop_last()),
{
    let d = e.drop_last();
    assert forall|a: int, b: int| 0 <= a < b < d.len() implies (#[trigger] d[a]).0@ != (
    #[trigger] d[b]).0@ by {
        assert(d[a] == e[a] && d[b] == e[b]);
    }
}

proof fn lemma_map_of_update<V>(e: Seq<(String, V)>, i: int, entry: (String, V))
    requires
        distinct_keys(e),
        0 <= i < e.len(),
        entry.0@ == e[i].0@,
    ensures
        map_of(e.update(i, entry)) == map_of(e).insert(entry.0@, entry.1),
        distinct_keys(e.update(i, entry)),
    decreases e.len(),
{
    let u = e.update(i, entry);
    assert forall|a: int, b: int| 0 <= a < b < u.len() implies (#[trigger] u[a]).0@ != (
    #[trigger] u[b]).0@ by {
        assert(e[a].0@ != e[b].0@);
    }
    lemma_distinct_drop_last(e);
    if i == e.len() - 1 {
        assert(u.drop_last() =~= e.drop_last());
        lemma_map_of_dom(e.drop_last(), entry.0@);
        assert(map_of(u) =~= map_of(e).insert(entry.0@, entry.1));
    } else {
        assert(u.drop_last() =~= e.drop_last().update(i, entry));
        lemma_map_of_update(e.drop_last(), i, entry);
        assert(e.last().0@ != entry.0@);
        assert(map_of(u) =~= map_of(e).insert(entry.0@, entry.1));
    }
}

proof fn lemma_map_of_remove<V>(e: Seq<(String, V)>, i: int)
    requires
        distinct_keys(e),
        0 <= i < e.len(),
    ensures
        map_of(e.remove(i)) == map_of(e).remove(e[i].0@),
        distinct_keys(e.remove(i)),
    decreases e.len(),
{
    let r = e.remove(i);
    let k = e[i].0@;
    assert forall|a: int, b: int| 0 <= a < b < r.len() implies (#[trigger] r[a]).0@ != (
    #[trigger] r[b]).0@ by {
        let a0 = if a < i { a } else { a + 1 };
        let b0 = if b < i { b } else { b + 1 };
        assert(r[a] == e[a0] && r[b] == e[b0]);
    }
    lemma_distinct_drop_last(e);
    if i == e.len() - 1 {
        assert(r =~= e.drop_last());
        lemma_map_of_dom(e.drop_last(), k);
        assert(map_of(r) =~= map_of(e).remove(k));
    } else {
        assert(r.drop_last() =~= e.drop_last().remove(i));
        assert(r.last() == e.last());
        lemma_map_of_remove(e.drop_last(), i);
        assert(e.last().0@ != k);
        assert(map_of(r) =~= map_of(e).remove(k));
    }
}

/// A map from identifiers to values.
pub struct IdMap<V> {
    entries: Vec<(String, V)>,
}

impl<V> View for IdMap<V> {
    type V = Map<Seq<char>, V>;

    closed spec fn view(&self) -> Map<Seq<char>, V> {
        map_of(self.entries@)
    }
}

impl<V> IdMap<V> {
    /// No identifier has two entries.
    #[verifier::type_invariant]
    spec fn wf(&self) -> bool {
        distinct_keys(self.entries@)
    }

    /// An empty map.
    pub fn new() -> (r: Self)
        ensures
            r@ == Map::<Seq<char>, V>::empty(),
    {
        IdMap { entries: Vec::new() }
    }

    fn index_of(&self, id: &str) -> (r: Option<usize>)
        ensures
            match r {
                Some(i) => i < self.entries@.len() && self.entries@[i as int].0@ == id@,
                None => !self@.contains_key(id@),
            },
    {
        proof {
            use_type_invariant(self);
        }
        let key = String::from_str(id);
        let mut i: usize = 0;
        while i < self.entries.len()
            invariant
                i <= self.entries@.len(),
                key@ == id@,
                forall|j: int| 0 <= j < i ==> (#[trigger] self.entries@[j]).0@ != id@,
            decreases self.entries.len() - i,
        {
            if self.entries[i].0 == key {
                return Some(i);
            }
            i = i + 1;
        }
        proof {
            lemma_map_of_dom(self.entries@, id@);
        }
        None
    }

    /// The identifiers that have a value, each once.
    pub fn keys(&self) -> (r: Vec<String>)
        ensures
            forall|k: Seq<char>| #[trigger] self@.contains_key(k) <==> exists|i: int|
                0 <= i < r@.len() && (#[trigger] r@[i])@ == k,
            forall|i: int, j: int| 0 <= i < j < r@.len() ==> (#[trigger] r@[i])@ != (#[trigger] r@[j])@,
    {
        proof {
            use_type_invariant(self);
        }
        let mut r: Vec<String> = Vec::new();
        let mut i: usize = 0;
        while i < self.entries.len()
            invariant
                i <= self.entries@.len(),
                distinct_keys(self.entries@),
                r@.len() == i,
                forall|j: int| 0 <= j < i ==> (#[trigger] r@[j])@ == self.entries@[j].0@,
            decreases self.entries.len() - i,
        {
            r.push(self.entries[i].0.clone());
            i = i + 1;
        }
        proof {
            assert forall|k: Seq<char>| #[trigger] self@.contains_key(k) <==> exists|i: int|
                0 <= i < r@.len() && (#[trigger] r@[i])@ == k by {
                lemma_map_of_dom(self.entries@, k);
                if self@.contains_key(k) {
                    let i = choose|i: int| 0 <= i < self.entries@.len() && (#[trigger] self.entries@[i]).0@ == k;
                    assert(r@[i]@ == k);
                }
                if exists|i: int| 0 <= i < r@.len() && (#[trigger] r@[i])@ == k {
                    let i = choose|i: int| 0 <= i < r@.len() && (#[trigger] r@[i])@ == k;
                    assert(self.entries@[i].0@ == k);
                }
            }
            assert forall|i: int, j: int| 0 <= i < j < r@.len() implies (#[trigger] r@[i])@ != (#[trigger] r@[j])@ by {
                assert(self.entries@[i].0@ == r@[i]@);
                assert(self.entries@[j].0@ == r@[j]@);
            }
        }
        r
    }

    /// Whether `id` has a value.
    pub fn contains(&self, id: &str) -> (r: bool)
        ensures
            r == self@.contains_key(id@),
    {
        proof {
            use_type_invariant(self);
        }
        match self.index_of(id) {
            Some(i) => {
                proof {
                    lemma_map_of_value(self.entries@, i as int);
                }
                true
            },
            None => false,
        }
    }

    /// The value of `id`, if it has one.
    pub fn get(&self, id: &str) -> (r: Option<&V>)
        ensures
            match r {
                Some(v) => self@.contains_key(id@) && *v == self@[id@],
                None => !self@.contains_key(id@),
            },
    {
        proof {
            use_type_invariant(self);
        }
        match self.index_of(id) {
            Some(i) => {
                proof {
                    lemma_map_of_value(self.entries@, i as int);
                }
                Some(&self.entries[i].1)
            },
            None => None,
        }
    }

    /// Sets the value of `id` to `v`.
    pub fn insert(&mut self, id: String, v: V)
        ensures
            final(self)@ == old(self)@.insert(id@, v),
    {
        proof {
            use_type_invariant(&*self);
        }
        match self.index_of(id.as_str()) {
            Some(i) => {
                proof {
                    lemma_map_of_update(self.entries@, i as int, (id, v));
                }
                let mut entries = Vec::new();
                std::mem::swap(&mut entries, &mut self.entries);
                entries.set(i, (id, v));
                self.entries = entries;
            },
            None => {
                proof {
                    assert forall|a: int, b: int|
                        0 <= a < b < self.entries@.push((id, v)).len() implies (
                    #[trigger] self.entries@.push((id, v))[a]).0@ != (
                    #[trigger] self.entries@.push((id, v))[b]).0@ by {
                        if b == self.entries@.len() {
                            lemma_map_of_dom(self.entries@, id@);
                            assert(self.entries@[a] == self.entries@.push((id, v))[a]);
                        }
                    }
                    assert(self.entries@.push((id, v)).drop_last() =~= self.entries@);
                }
                let mut entries = Vec::new();
                std::mem::swap(&mut entries, &mut self.entries);
                entries.push((id, v));
                self.entries = entries;
            },
        }
    }

    /// Removes the value of `id`, if it has one.
    pub fn remove(&mut self, id: &str)
        ensures
            final(self)@ == old(self)@.remove(id@),
    {
        proof {
            use_type_invariant(&*self);
        }
        match self.index_of(id) {
            Some(i) => {
                proof {
                    lemma_map_of_remove(self.entries@, i as int);
                }
                let mut entries = Vec::new();
                std::mem::swap(&mut entries, &mut self.entries);
                entries.remove(i);
                self.entries = entries;
            },
            None => {
                assert(self@.remove(id@) =~= self@);
            },
        }
    }

    /// Removes the value of `id` and hands it out, if it has one.
    pub fn take(&mut self, id: &str) -> (r: Option<V>)
        ensures
            final(self)@ == old(self)@.remove(id@),
            match r {
                Some(v) => old(self)@.contains_key(id@) && v == old(self)@[id@],
                None => !old(self)@.contains_key(id@),
            },
    {
        proof {
            use_type_invariant(&*self);
        }
        match self.index_of(id) {
            Some(i) => {
                proof {
                    lemma_map_of_value(self.entries@, i as int);
                    lemma_map_of_remove(self.entries@, i as int);
                }
                let mut entries = Vec::new();
                std::mem::swap(&mut entries, &mut self.entries);
                let (_, v) = entries.remove(i);
                self.entries = entries;
                Some(v)
            },
            None => {
                assert(self@.remove(id@) =~= self@);
                None
            },
        }
    }
}

} // verus!
