//! A table from names to values that keeps the order in which names came in.
use crate::text;
use vstd::prelude::*;

verus! {

/// A table from names to values. No name occurs twice.
#[derive(Debug)]
pub struct Table<T> {
    entries: Vec<(String, T)>,
}

/// The names of a list of entries.
pub open spec fn entry_names<T>(es: Seq<(String, T)>) -> Seq<Seq<char>> {
    es.map_values(|e: (String, T)| e.0@)
}

/// A list of names with one more, unless it holds that one already.
pub open spec fn with_name(names: Seq<Seq<char>>, known: bool, name: Seq<char>) -> Seq<Seq<char>> {
    if known {
        names
    } else {
        names.push(name)
    }
}

/// Whether no name occurs twice.
pub open spec fn distinct_names<T>(es: Seq<(String, T)>) -> bool {
    forall|i: int, j: int|
        0 <= i < es.len() && 0 <= j < es.len() && i != j ==> #[trigger] es[i].0@ != #[trigger] es[j].0@
}

/// Whether an entry has the given name.
pub open spec fn has_name<T>(es: Seq<(String, T)>, k: Seq<char>) -> bool {
    exists|i: int| 0 <= i < es.len() && (#[trigger] es[i]).0@ == k
}

/// The value of a name.
pub open spec fn value_of<T>(es: Seq<(String, T)>, k: Seq<char>) -> T {
    es[choose|i: int| 0 <= i < es.len() && (#[trigger] es[i]).0@ == k].1
}

/// The entries as a map.
pub open spec fn entry_map<T>(es: Seq<(String, T)>) -> Map<Seq<char>, T> {
    Map::new(|k: Seq<char>| has_name(es, k), |k: Seq<char>| value_of(es, k))
}

proof fn lemma_entry<T>(es: Seq<(String, T)>, i: int)
    requires
        distinct_names(es),
        0 <= i < es.len(),
    ensures
        entry_map(es).contains_key(es[i].0@),
        entry_map(es)[es[i].0@] == es[i].1,
{
    let k = es[i].0@;
    assert(has_name(es, k));
    let j = choose|j: int| 0 <= j < es.len() && (#[trigger] es[j]).0@ == k;
    assert(es[j].0@ == k && 0 <= j < es.len());
    assert(j == i);
}

impl<T> Table<T> {
    /// The entries, in the order in which the names came in.
    pub closed spec fn entries(&self) -> Seq<(String, T)> {
        self.entries@
    }

    #[verifier::type_invariant]
    spec fn inv(&self) -> bool {
        distinct_names(self.entries@)
    }

    /// The table as a map.
    pub open spec fn map(&self) -> Map<Seq<char>, T> {
        entry_map(self.entries())
    }

    /// The names, in the order in which they came in.
    pub open spec fn names(&self) -> Seq<Seq<char>> {
        entry_names(self.entries())
    }

    /// An empty table.
    pub fn new() -> (r: Self)
        ensures
            r.map() == Map::<Seq<char>, T>::empty(),
            r.entries().len() == 0,
            r.names() == Seq::<Seq<char>>::empty(),
    {
        let r = Table { entries: Vec::new() };
        proof {
            assert forall|k: Seq<char>| !has_name(r.entries@, k) by {
            }
            assert(r.map() =~= Map::<Seq<char>, T>::empty());
            assert(r.names() =~= Seq::<Seq<char>>::empty());
        }
        r
    }

    /// The number of names. No name occurs twice among the entries, and each entry holds its
    /// name's value.
    pub fn len(&self) -> (r: usize)
        ensures
            r == self.entries().len(),
            distinct_names(self.entries()),
            forall|i: int|
                0 <= i < self.entries().len() ==> self.map().contains_key(
                    (#[trigger] self.entries()[i]).0@,
                ) && self.map()[self.entries()[i].0@] == self.entries()[i].1,
    {
        proof {
            use_type_invariant(self);
            assert forall|i: int| 0 <= i < self.entries().len() implies self.map().contains_key(
                (#[trigger] self.entries()[i]).0@,
            ) && self.map()[self.entries()[i].0@] == self.entries()[i].1 by {
                lemma_entry(self.entries@, i);
            }
        }
        self.entries.len()
    }

    /// The name at a position.
    pub fn name_at(&self, i: usize) -> (r: &String)
        requires
            i < self.entries().len(),
        ensures
            r@ == self.names()[i as int],
    {
        &self.entries[i].0
    }

    /// The value at a position.
    pub fn value_at(&self, i: usize) -> (r: &T)
        requires
            i < self.entries().len(),
        ensures
            *r == self.entries()[i as int].1,
            self.map().contains_key(self.entries()[i as int].0@),
            self.map()[self.entries()[i as int].0@] == *r,
    {
        proof {
            use_type_invariant(self);
            lemma_entry(self.entries@, i as int);
        }
        &self.entries[i].1
    }

    fn position(&self, k: &str) -> (r: Option<usize>)
        ensures
            match r {
                Some(i) => i < self.entries@.len() && self.entries@[i as int].0@ == k@,
                None => !has_name(self.entries@, k@),
            },
    {
        let mut i: usize = 0;
        while i < self.entries.len()
            invariant
                i <= self.entries@.len(),
                forall|j: int| 0 <= j < i ==> (#[trigger] self.entries@[j]).0@ != k@,
            decreases self.entries@.len() - i,
        {
            if text::text_eq(self.entries[i].0.as_str(), k) {
                return Some(i);
            }
            i = i + 1;
        }
        None
    }

    /// Whether a name is in the table.
    pub fn contains(&self, k: &str) -> (r: bool)
        ensures
            r == self.map().contains_key(k@),
    {
        match self.position(k) {
            Some(i) => {
                proof {
                    assert(self.entries@[i as int].0@ == k@);
                    assert(has_name(self.entries@, k@));
                }
                true
            },
            None => false,
        }
    }

    /// The value of a name.
    pub fn get(&self, k: &str) -> (r: Option<&T>)
        ensures
            match r {
                Some(v) => self.map().contains_key(k@) && *v == self.map()[k@],
                None => !self.map().contains_key(k@),
            },
    {
        match self.position(k) {
            Some(i) => {
                proof {
                    use_type_invariant(self);
                    lemma_entry(self.entries@, i as int);
                }
                Some(&self.entries[i].1)
            },
            None => None,
        }
    }

    /// Sets the value of a name.
    pub fn insert(&mut self, k: String, v: T)
        ensures
            final(self).map() == old(self).map().insert(k@, v),
            final(self).names() == with_name(old(self).names(), old(self).map().contains_key(k@), k@),
    {
        let at = self.position(k.as_str());
        let mut taken = Table { entries: Vec::new() };
        core::mem::swap(self, &mut taken);
        proof {
            use_type_invariant(&taken);
        }
        let mut entries = taken.entries;
        let ghost es = entries@;
        match at {
            Some(i) => {
                let old_name = entries[i].0.clone();
                entries.set(i, (old_name, v));
                proof {
                    let fs = entries@;
                    assert(has_name(es, k@));
                    assert forall|a: int, b: int| 0 <= a < fs.len() && 0 <= b < fs.len() && a != b implies #[trigger] fs[a].0@
                        != #[trigger] fs[b].0@ by {
                        assert(es[a].0@ != es[b].0@);
                        assert(fs[a].0@ == es[a].0@ && fs[b].0@ == es[b].0@);
                    }
                    lemma_replaced(es, fs, i as int, k@, v);
                    assert(entry_names(fs) =~= entry_names(es));
                }
            },
            None => {
                entries.push((k, v));
                proof {
                    let fs = entries@;
                    assert forall|a: int, b: int| 0 <= a < fs.len() && 0 <= b < fs.len() && a != b implies #[trigger] fs[a].0@
                        != #[trigger] fs[b].0@ by {
                        if a < es.len() {
                            assert(es[a] == fs[a]);
                        }
                        if b < es.len() {
                            assert(es[b] == fs[b]);
                        }
                    }
                    lemma_pushed(es, fs, k, v);
                    assert(entry_names(fs) =~= entry_names(es).push(k@));
                }
            },
        }
        *self = Table { entries };
    }
}

proof fn lemma_replaced<T>(es: Seq<(String, T)>, fs: Seq<(String, T)>, i: int, k: Seq<char>, v: T)
    requires
        distinct_names(es),
        distinct_names(fs),
        0 <= i < es.len(),
        es[i].0@ == k,
        fs.len() == es.len(),
        fs[i].0@ == k,
        fs[i].1 == v,
        forall|j: int| 0 <= j < es.len() && j != i ==> #[trigger] fs[j] == es[j],
    ensures
        entry_map(fs) == entry_map(es).insert(k, v),
{
    let a = entry_map(fs);
    let b = entry_map(es).insert(k, v);
    assert forall|n: Seq<char>| a.contains_key(n) <==> b.contains_key(n) by {
        if has_name(fs, n) {
            let j = choose|j: int| 0 <= j < fs.len() && (#[trigger] fs[j]).0@ == n;
            assert(j != i ==> es[j].0@ == n);
        }
        if has_name(es, n) {
            let j = choose|j: int| 0 <= j < es.len() && (#[trigger] es[j]).0@ == n;
            assert(fs[j].0@ == n);
        }
        if n == k {
            assert(fs[i].0@ == n);
        }
    }
    assert forall|n: Seq<char>| a.contains_key(n) implies a[n] == b[n] by {
        let j = choose|j: int| 0 <= j < fs.len() && (#[trigger] fs[j]).0@ == n;
        lemma_entry(fs, j);
        if j != i {
            assert(es[j] == fs[j]);
            lemma_entry(es, j);
            assert(n != k);
        }
    }
    assert(a =~= b);
}

proof fn lemma_pushed<T>(es: Seq<(String, T)>, fs: Seq<(String, T)>, k: String, v: T)
    requires
        distinct_names(es),
        distinct_names(fs),
        fs == es.push((k, v)),
        !has_name(es, k@),
    ensures
        entry_map(fs) == entry_map(es).insert(k@, v),
{
    let a = entry_map(fs);
    let b = entry_map(es).insert(k@, v);
    assert forall|n: Seq<char>| a.contains_key(n) <==> b.contains_key(n) by {
        if has_name(fs, n) {
            let j = choose|j: int| 0 <= j < fs.len() && (#[trigger] fs[j]).0@ == n;
            if j < es.len() {
                assert(es[j].0@ == n);
            }
        }
        if has_name(es, n) {
            let j = choose|j: int| 0 <= j < es.len() && (#[trigger] es[j]).0@ == n;
            assert(fs[j].0@ == n);
        }
        if n == k@ {
            assert(fs[es.len() as int].0@ == n);
        }
    }
    assert forall|n: Seq<char>| a.contains_key(n) implies a[n] == b[n] by {
        let j = choose|j: int| 0 <= j < fs.len() && (#[trigger] fs[j]).0@ == n;
        lemma_entry(fs, j);
        if j < es.len() {
            assert(es[j] == fs[j]);
            lemma_entry(es, j);
            assert(n != k@);
        }
    }
    assert(a =~= b);
}

} // verus!
