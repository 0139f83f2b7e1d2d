//! A small keyed table: one value per key, in the order the keys first came.

use vstd::prelude::*;

verus! {

/// What a table can be keyed by: a type whose equality is that of its view.
pub trait Key: View + Sized {
    fn same(&self, other: &Self) -> (r: bool)
        ensures
            r == (self@ == other@),
    ;
}

impl Key for usize {
    fn same(&self, other: &Self) -> (r: bool) {
        *self == *other
    }
}

impl Key for String {
    fn same(&self, other: &Self) -> (r: bool) {
        *self == *other
    }
}

pub open spec fn has_key<K: Key, V>(rows: Seq<(K, V)>, k: K::V) -> bool {
    exists|i: int| 0 <= i < rows.len() && (#[trigger] rows[i]).0@ == k
}

pub open spec fn row_of<K: Key, V>(rows: Seq<(K, V)>, k: K::V) -> int {
    choose|i: int| 0 <= i < rows.len() && (#[trigger] rows[i]).0@ == k
}

pub open spec fn distinct_keys<K: Key, V>(rows: Seq<(K, V)>) -> bool {
    forall|i: int, j: int|
        0 <= i < j < rows.len() ==> (#[trigger] rows[i]).0@ != (#[trigger] rows[j]).0@
}

/// The mapping that a list of rows with distinct keys stands for.
pub open spec fn rows_map<K: Key, V>(rows: Seq<(K, V)>) -> Map<K::V, V> {
    Map::new(|k: K::V| has_key(rows, k), |k: K::V| rows[row_of(rows, k)].1)
}

pub struct Table<K: Key, V> {
    rows: Vec<(K, V)>,
}

impl<K: Key, V> View for Table<K, V> {
    type V = Map<K::V, V>;

    open spec fn view(&self) -> Map<K::V, V> {
        rows_map(self.rows())
    }
}

impl<K: Key, V> Table<K, V> {
    #[verifier::type_invariant]
    spec fn keys_are_distinct(self) -> bool {
        distinct_keys(self.rows@)
    }

    /// The rows in the order in which their keys first came.
    pub closed spec fn rows(self) -> Seq<(K, V)> {
        self.rows@
    }

    pub fn new() -> (t: Self)
        ensures
            t.rows() == Seq::<(K, V)>::empty(),
            t@ == Map::<K::V, V>::empty(),
    {
        let t = Table { rows: Vec::new() };
        assert(t@ =~= Map::<K::V, V>::empty());
        t
    }

    fn find(&self, k: &K) -> (r: Option<usize>)
        ensures
            match r {
                Some(i) => i < self.rows@.len() && self.rows@[i as int].0@ == k@,
                None => !has_key(self.rows@, k@),
            },
    {
        let mut i: usize = 0;
        while i < self.rows.len()
            invariant
                i <= self.rows@.len(),
                forall|j: int| 0 <= j < i ==> (#[trigger] self.rows@[j]).0@ != k@,
            decreases self.rows@.len() - i,
        {
            if self.rows[i].0.same(k) {
                return Some(i);
            }
            i += 1;
        }
        None
    }

    /// Sets the value under `k`, in place of the one that was there.
    pub fn insert(&mut self, k: K, v: V)
        ensures
            final(self)@ == old(self)@.insert(k@, v),
            distinct_keys(final(self).rows()),
            final(self).rows() == (if has_key(old(self).rows(), k@) {
                old(self).rows().update(row_of(old(self).rows(), k@), (k, v))
            } else {
                old(self).rows().push((k, v))
            }),
    {
        proof { use_type_invariant(&*self); }
        let found = self.find(&k);
        let ghost before = self.rows@;
        let mut rows: Vec<(K, V)> = Vec::new();
        core::mem::swap(&mut rows, &mut self.rows);
        match found {
            Some(i) => {
                rows[i] = (k, v);
                assert(rows@ == before.update(i as int, (k, v)));
                proof {
                    lemma_update(before, i as int, k, v);
                    lemma_row_of(before, i as int);
                }
            },
            None => {
                rows.push((k, v));
                proof {
                    lemma_push(before, k, v);
                }
            },
        }
        self.rows = rows;
    }

    /// The value under `k`.
    pub fn get(&self, k: &K) -> (r: Option<&V>)
        ensures
            match r {
                Some(v) => self@.contains_key(k@) && *v == self@[k@],
                None => !self@.contains_key(k@),
            },
    {
        proof { use_type_invariant(self); }
        match self.find(k) {
            Some(i) => {
                proof { lemma_row_of(self.rows@, i as int); }
                Some(&self.rows[i].1)
            },
            None => None,
        }
    }

    /// Takes the value under `k` out.
    pub fn remove(&mut self, k: &K) -> (r: Option<V>)
        ensures
            final(self)@ == old(self)@.remove(k@),
            distinct_keys(final(self).rows()),
            r == (if old(self)@.contains_key(k@) {
                Some(old(self)@[k@])
            } else {
                None
            }),
    {
        proof { use_type_invariant(&*self); }
        let found = self.find(k);
        match found {
            Some(i) => {
                let ghost before = self.rows@;
                let mut rows: Vec<(K, V)> = Vec::new();
                core::mem::swap(&mut rows, &mut self.rows);
                let row = rows.remove(i);
                proof {
                    lemma_remove(before, i as int);
                    lemma_row_of(before, i as int);
                }
                self.rows = rows;
                Some(row.1)
            },
            None => {
                assert(self@ =~= self@.remove(k@));
                None
            },
        }
    }

    /// Takes everything out, in the order in which the keys first came.
    pub fn take_rows(&mut self) -> (r: Vec<(K, V)>)
        ensures
            r@ == old(self).rows(),
            distinct_keys(r@),
            final(self).rows() == Seq::<(K, V)>::empty(),
            final(self)@ == Map::<K::V, V>::empty(),
    {
        proof { use_type_invariant(&*self); }
        let mut rows: Vec<(K, V)> = Vec::new();
        core::mem::swap(&mut rows, &mut self.rows);
        assert(self@ =~= Map::<K::V, V>::empty());
        rows
    }

    pub fn len(&self) -> (n: usize)
        ensures
            n as nat == self.rows().len(),
            distinct_keys(self.rows()),
    {
        proof { use_type_invariant(self); }
        self.rows.len()
    }

    /// The row at `i`.
    pub fn row(&self, i: usize) -> (r: &(K, V))
        requires
            i < self.rows().len(),
        ensures
            *r == self.rows()[i as int],
    {
        &self.rows[i]
    }
}

/// The rows of a table are its mapping: each key has one row, and the row has the key's value.
pub proof fn law_rows_are_the_mapping<K: Key, V>(rows: Seq<(K, V)>)
    requires
        distinct_keys(rows),
    ensures
        forall|i: int|
            0 <= i < rows.len() ==> rows_map(rows).contains_key((#[trigger] rows[i]).0@)
                && rows_map(rows)[rows[i].0@] == rows[i].1,
        forall|k: K::V| #[trigger] rows_map(rows).contains_key(k) ==> has_key(rows, k),
{
    assert forall|i: int| 0 <= i < rows.len() implies rows_map(rows).contains_key(
        (#[trigger] rows[i]).0@,
    ) && rows_map(rows)[rows[i].0@] == rows[i].1 by {
        lemma_row_of(rows, i);
    }
}

proof fn lemma_remove<K: Key, V>(rows: Seq<(K, V)>, i: int)
    requires
        distinct_keys(rows),
        0 <= i < rows.len(),
    ensures
        distinct_keys(rows.remove(i)),
        rows_map(rows.remove(i)) == rows_map(rows).remove(rows[i].0@),
{
    let after = rows.remove(i);
    let k = rows[i].0@;
    assert forall|a: int| 0 <= a < after.len() implies #[trigger] after[a] == rows[if a < i {
        a
    } else {
        a + 1
    }] by {}
    assert forall|a: int, b: int| 0 <= a < b < after.len() implies (#[trigger] after[a]).0@ != (
    #[trigger] after[b]).0@ by {
        let x = if a < i { a } else { a + 1 };
        let y = if b < i { b } else { b + 1 };
        assert(rows[x].0@ != rows[y].0@);
    }
    assert forall|q: K::V| has_key(after, q) == (q != k && has_key(rows, q)) by {
        if has_key(after, q) {
            let j = row_of(after, q);
            let x = if j < i { j } else { j + 1 };
            assert(rows[x].0@ == q);
            if q == k {
                assert(rows[i].0@ == rows[x].0@);
            }
        }
        if q != k && has_key(rows, q) {
            let j = row_of(rows, q);
            let x = if j < i { j } else { j - 1 };
            assert(after[x].0@ == q);
        }
    }
    assert forall|q: K::V| has_key(after, q) implies rows_map(after)[q] == rows_map(rows)[q] by {
        let j = row_of(after, q);
        let x = if j < i { j } else { j + 1 };
        lemma_row_of(after, j);
        lemma_row_of(rows, x);
        assert(after[j].0@ == q);
    }
    assert(rows_map(after) =~= rows_map(rows).remove(k));
}

proof fn lemma_row_of<K: Key, V>(rows: Seq<(K, V)>, i: int)
    requires
        distinct_keys(rows),
        0 <= i < rows.len(),
    ensures
        has_key(rows, rows[i].0@),
        row_of(rows, rows[i].0@) == i,
{
    let j = row_of(rows, rows[i].0@);
    assert(rows[i].0@ == rows[i].0@);
    assert(0 <= j < rows.len() && rows[j].0@ == rows[i].0@);
}

proof fn lemma_update<K: Key, V>(rows: Seq<(K, V)>, i: int, k: K, v: V)
    requires
        distinct_keys(rows),
        0 <= i < rows.len(),
        rows[i].0@ == k@,
    ensures
        distinct_keys(rows.update(i, (k, v))),
        rows_map(rows.update(i, (k, v))) == rows_map(rows).insert(k@, v),
{
    let after = rows.update(i, (k, v));
    assert forall|a: int, b: int| 0 <= a < b < after.len() implies (#[trigger] after[a]).0@ != (
    #[trigger] after[b]).0@ by {
        assert(rows[a].0@ != rows[b].0@);
    }
    assert forall|q: K::V| has_key(after, q) == (q == k@ || has_key(rows, q)) by {
        if has_key(after, q) {
            let j = row_of(after, q);
            assert(rows[j].0@ == after[j].0@);
        }
        if has_key(rows, q) {
            let j = row_of(rows, q);
            assert(after[j].0@ == q);
        }
        assert(after[i].0@ == k@);
    }
    assert forall|q: K::V| has_key(after, q) implies rows_map(after)[q] == rows_map(rows).insert(
        k@,
        v,
    )[q] by {
        let j = row_of(after, q);
        lemma_row_of(after, j);
        lemma_row_of(rows, j);
        lemma_row_of(after, i);
        assert(after[j].0@ == q && rows[j].0@ == q);
    }
    assert(rows_map(after) =~= rows_map(rows).insert(k@, v));
}

proof fn lemma_push<K: Key, V>(rows: Seq<(K, V)>, k: K, v: V)
    requires
        distinct_keys(rows),
        !has_key(rows, k@),
    ensures
        distinct_keys(rows.push((k, v))),
        rows_map(rows.push((k, v))) == rows_map(rows).insert(k@, v),
{
    let after = rows.push((k, v));
    let n = rows.len() as int;
    assert forall|a: int, b: int| 0 <= a < b < after.len() implies (#[trigger] after[a]).0@ != (
    #[trigger] after[b]).0@ by {
        assert(after[a] == rows[a]);
        if b == n {
            assert(rows[a].0@ != k@);
        } else {
            assert(rows[a].0@ != rows[b].0@);
        }
    }
    assert forall|q: K::V| has_key(after, q) == (q == k@ || has_key(rows, q)) by {
        if has_key(after, q) {
            let j = row_of(after, q);
            if j < n {
                assert(rows[j].0@ == q);
            }
        }
        if has_key(rows, q) {
            let j = row_of(rows, q);
            assert(after[j].0@ == q);
        }
        assert(after[n].0@ == k@);
    }
    assert forall|q: K::V| has_key(after, q) implies rows_map(after)[q] == rows_map(rows).insert(
        k@,
        v,
    )[q] by {
        let j = row_of(after, q);
        lemma_row_of(after, j);
        if j < n {
            lemma_row_of(rows, j);
            assert(rows[j].0@ == q);
        }
    }
    assert(rows_map(after) =~= rows_map(rows).insert(k@, v));
}

} // verus!
