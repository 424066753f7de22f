//! A table from byte strings to values, kept in insertion order.

use crate::bytes::{copy_bytes, same_bytes};
use vstd::prelude::*;

verus! {

/// One row of a table.
#[derive(Debug)]
pub struct Row<V> {
    pub key: Vec<u8>,
    pub value: V,
}

/// A table in which no key occurs twice. Its view is the map that it holds; its
/// rows also have an order, in which they can be visited by index.
#[derive(Debug)]
pub struct Table<V> {
    rows: Vec<Row<V>>,
}

/// Whether some row has the key `k`.
pub open spec fn has_key<V>(rows: Seq<(Seq<u8>, V)>, k: Seq<u8>) -> bool {
    exists|i: int| 0 <= i < rows.len() && #[trigger] rows[i].0 == k
}

/// The index of a row with the key `k`.
pub open spec fn row_of<V>(rows: Seq<(Seq<u8>, V)>, k: Seq<u8>) -> int {
    choose|i: int| 0 <= i < rows.len() && #[trigger] rows[i].0 == k
}

/// The map that a sequence of rows holds.
pub open spec fn map_of<V>(rows: Seq<(Seq<u8>, V)>) -> Map<Seq<u8>, V> {
    Map::new(|k: Seq<u8>| has_key(rows, k), |k: Seq<u8>| rows[row_of(rows, k)].1)
}

/// Whether no key occurs twice.
pub open spec fn keys_unique<V>(rows: Seq<(Seq<u8>, V)>) -> bool {
    forall|i: int, j: int| 0 <= i < j < rows.len() ==> #[trigger] rows[i].0 != #[trigger] rows[j].0
}

pub proof fn lemma_row<V>(rows: Seq<(Seq<u8>, V)>, i: int)
    requires
        keys_unique(rows),
        0 <= i < rows.len(),
    ensures
        map_of(rows).contains_key(rows[i].0),
        map_of(rows)[rows[i].0] == rows[i].1,
{
    assert(has_key(rows, rows[i].0));
    let j = row_of(rows, rows[i].0);
    assert(rows[j].0 == rows[i].0);
}

proof fn lemma_push<V>(rows: Seq<(Seq<u8>, V)>, k: Seq<u8>, v: V)
    requires
        keys_unique(rows),
        !has_key(rows, k),
    ensures
        keys_unique(rows.push((k, v))),
        map_of(rows.push((k, v))) == map_of(rows).insert(k, v),
{
    let after = rows.push((k, v));
    assert(keys_unique(after));
    assert forall|x: Seq<u8>| has_key(after, x) == (has_key(rows, x) || x == k) by {
        if has_key(rows, x) {
            assert(after[row_of(rows, x)].0 == x);
        }
        if x == k {
            assert(after[rows.len() as int].0 == x);
        }
    }
    assert forall|x: Seq<u8>| has_key(after, x) implies map_of(after)[x] == map_of(rows).insert(
        k,
        v,
    )[x] by {
        let i = row_of(after, x);
        lemma_row(after, i);
        if x != k {
            lemma_row(rows, i);
        }
    }
    assert(map_of(after) =~= map_of(rows).insert(k, v));
}

proof fn lemma_update<V>(rows: Seq<(Seq<u8>, V)>, i: int, v: V)
    requires
        keys_unique(rows),
        0 <= i < rows.len(),
    ensures
        keys_unique(rows.update(i, (rows[i].0, v))),
        map_of(rows.update(i, (rows[i].0, v))) == map_of(rows).insert(rows[i].0, v),
{
    let after = rows.update(i, (rows[i].0, v));
    assert forall|j: int| 0 <= j < rows.len() implies #[trigger] after[j].0 == rows[j].0 by {}
    assert(keys_unique(after));
    assert forall|x: Seq<u8>| has_key(after, x) == has_key(rows, x) by {
        if has_key(rows, x) {
            assert(after[row_of(rows, x)].0 == x);
        }
        if has_key(after, x) {
            assert(rows[row_of(after, x)].0 == x);
        }
    }
    lemma_row(rows, i);
    assert forall|x: Seq<u8>| has_key(after, x) implies map_of(after)[x] == map_of(rows).insert(
        rows[i].0,
        v,
    )[x] by {
        let j = row_of(after, x);
        lemma_row(after, j);
        lemma_row(rows, j);
    }
    assert(map_of(after) =~= map_of(rows).insert(rows[i].0, v));
}

proof fn lemma_remove<V>(rows: Seq<(Seq<u8>, V)>, i: int)
    requires
        keys_unique(rows),
        0 <= i < rows.len(),
    ensures
        keys_unique(rows.remove(i)),
        map_of(rows.remove(i)) == map_of(rows).remove(rows[i].0),
{
    let after = rows.remove(i);
    assert forall|j: int| 0 <= j < after.len() implies #[trigger] after[j] == rows[if j < i {
        j
    } else {
        j + 1
    }] by {}
    assert(keys_unique(after));
    assert forall|x: Seq<u8>| has_key(after, x) == (has_key(rows, x) && x != rows[i].0) by {
        if has_key(rows, x) && x != rows[i].0 {
            let j = row_of(rows, x);
            assert(after[if j < i { j } else { j - 1 }].0 == x);
        }
        if has_key(after, x) {
            let j = row_of(after, x);
            assert(rows[if j < i { j } else { j + 1 }].0 == x);
        }
    }
    assert forall|x: Seq<u8>| has_key(after, x) implies map_of(after)[x] == map_of(rows)[x] by {
        let j = row_of(after, x);
        lemma_row(after, j);
        lemma_row(rows, if j < i { j } else { j + 1 });
    }
    assert(map_of(after) =~= map_of(rows).remove(rows[i].0));
}

/// A table holds as many keys as it has rows.
pub proof fn lemma_table_len<V>(rows: Seq<(Seq<u8>, V)>)
    requires
        keys_unique(rows),
    ensures
        map_of(rows).dom().finite(),
        map_of(rows).len() == rows.len(),
    decreases rows.len(),
{
    if rows.len() == 0 {
        assert(map_of(rows) =~= Map::<Seq<u8>, V>::empty());
    } else {
        let last = rows.len() - 1;
        lemma_remove(rows, last);
        lemma_table_len(rows.remove(last));
        lemma_row(rows, last);
        let m = map_of(rows);
        let k = rows[last].0;
        assert(m.dom() =~= m.remove(k).dom().insert(k));
    }
}

impl<V> View for Table<V> {
    type V = Map<Seq<u8>, V>;

    open spec fn view(&self) -> Map<Seq<u8>, V> {
        map_of(self.rows())
    }
}

impl<V> Table<V> {
    /// The rows in their order.
    pub closed spec fn rows(self) -> Seq<(Seq<u8>, V)> {
        Seq::new(self.rows@.len(), |i: int| (self.rows@[i].key@, self.rows@[i].value))
    }

    /// No key occurs twice.
    #[verifier::type_invariant]
    pub open spec fn unique(self) -> bool {
        keys_unique(self.rows())
    }

    /// An empty table.
    pub fn new() -> (t: Table<V>)
        ensures
            t@ == Map::<Seq<u8>, V>::empty(),
            t.rows() == Seq::<(Seq<u8>, V)>::empty(),
    {
        let t = Table { rows: Vec::new() };
        assert(t.rows() =~= Seq::<(Seq<u8>, V)>::empty());
        assert(t@ =~= Map::<Seq<u8>, V>::empty());
        t
    }

    /// The number of rows.
    pub fn len(&self) -> (n: usize)
        ensures
            n == self@.len(),
            n == self.rows().len(),
            self@.dom().finite(),
            keys_unique(self.rows()),
    {
        proof {
            use_type_invariant(self);
            lemma_table_len(self.rows());
        }
        self.rows.len()
    }

    /// The index of the row with the key `key`.
    pub fn find(&self, key: &[u8]) -> (r: Option<usize>)
        ensures
            r is Some == self@.contains_key(key@),
            r matches Some(i) ==> i < self.rows().len() && self.rows()[i as int].0 == key@
                && self@[key@] == self.rows()[i as int].1,
            keys_unique(self.rows()),
    {
        proof {
            use_type_invariant(self);
        }
        let mut i: usize = 0;
        while i < self.rows.len()
            invariant
                0 <= i <= self.rows@.len(),
                keys_unique(self.rows()),
                forall|j: int| 0 <= j < i ==> #[trigger] self.rows()[j].0 != key@,
            decreases self.rows@.len() - i,
        {
            if same_bytes(self.rows[i].key.as_slice(), key) {
                proof {
                    lemma_row(self.rows(), i as int);
                }
                return Some(i);
            }
            i = i + 1;
        }
        None
    }

    /// Whether there is a row with the key `key`.
    pub fn contains(&self, key: &[u8]) -> (b: bool)
        ensures
            b == self@.contains_key(key@),
    {
        self.find(key).is_some()
    }

    /// The value under `key`.
    pub fn get(&self, key: &[u8]) -> (r: Option<&V>)
        ensures
            r is Some == self@.contains_key(key@),
            r matches Some(v) ==> *v == self@[key@],
    {
        match self.find(key) {
            Some(i) => Some(&self.rows[i].value),
            None => None,
        }
    }

    /// The key of the row with the index `i`.
    pub fn key_at(&self, i: usize) -> (k: &Vec<u8>)
        requires
            i < self.rows().len(),
        ensures
            k@ == self.rows()[i as int].0,
            self@.contains_key(k@),
    {
        proof {
            use_type_invariant(self);
            lemma_row(self.rows(), i as int);
        }
        &self.rows[i].key
    }

    /// The value of the row with the index `i`.
    pub fn value_at(&self, i: usize) -> (v: &V)
        requires
            i < self.rows().len(),
        ensures
            *v == self.rows()[i as int].1,
            self@.contains_key(self.rows()[i as int].0),
            self@[self.rows()[i as int].0] == *v,
    {
        proof {
            use_type_invariant(self);
            lemma_row(self.rows(), i as int);
        }
        &self.rows[i].value
    }

    /// Puts `value` under `key`, in place of what was there. A new key gets the
    /// last row.
    pub fn insert(&mut self, key: &[u8], value: V) -> (before: Option<V>)
        ensures
            final(self)@ == old(self)@.insert(key@, value),
            before is Some == old(self)@.contains_key(key@),
            before matches Some(v) ==> v == old(self)@[key@],
            !old(self)@.contains_key(key@) ==> final(self).rows() == old(self).rows().push(
                (key@, value),
            ),
    {
        proof {
            use_type_invariant(&*self);
        }
        let ghost rows = self.rows();
        match self.find(key) {
            Some(i) => {
                let mut all: Vec<Row<V>> = Vec::new();
                std::mem::swap(&mut all, &mut self.rows);
                let ghost whole = all@;
                let row: Row<V> = Row { key: copy_bytes(key), value };
                all.push(row);
                let taken: Row<V> = all.swap_remove(i);
                proof {
                    let after = Seq::new(all@.len(), |j: int| (all@[j].key@, all@[j].value));
                    assert(after =~= rows.update(i as int, (rows[i as int].0, value)));
                    lemma_update(rows, i as int, value);
                }
                self.rows = all;
                assert(self.rows() =~= rows.update(i as int, (rows[i as int].0, value)));
                Some(taken.value)
            },
            None => {
                proof {
                    lemma_push(rows, key@, value);
                }
                let mut all: Vec<Row<V>> = Vec::new();
                std::mem::swap(&mut all, &mut self.rows);
                all.push(Row { key: copy_bytes(key), value });
                proof {
                    let after = Seq::new(all@.len(), |j: int| (all@[j].key@, all@[j].value));
                    assert(after =~= rows.push((key@, value)));
                }
                self.rows = all;
                assert(self.rows() =~= rows.push((key@, value)));
                None
            },
        }
    }

    /// Takes out the row with the index `i`. The other rows keep their order.
    pub fn remove_at(&mut self, i: usize) -> (value: V)
        requires
            i < old(self).rows().len(),
        ensures
            final(self)@ == old(self)@.remove(old(self).rows()[i as int].0),
            final(self).rows() == old(self).rows().remove(i as int),
            value == old(self).rows()[i as int].1,
            old(self)@.contains_key(old(self).rows()[i as int].0),
            value == old(self)@[old(self).rows()[i as int].0],
    {
        proof {
            use_type_invariant(&*self);
        }
        let ghost rows = self.rows();
        proof {
            lemma_row(rows, i as int);
            lemma_remove(rows, i as int);
        }
        let mut all: Vec<Row<V>> = Vec::new();
        std::mem::swap(&mut all, &mut self.rows);
        let taken: Row<V> = all.remove(i);
        proof {
            let after = Seq::new(all@.len(), |j: int| (all@[j].key@, all@[j].value));
            assert(after =~= rows.remove(i as int));
        }
        self.rows = all;
        assert(self.rows() =~= rows.remove(i as int));
        taken.value
    }

    /// Takes out the value under `key`.
    pub fn remove(&mut self, key: &[u8]) -> (r: Option<V>)
        ensures
            final(self)@ == old(self)@.remove(key@),
            r is Some == old(self)@.contains_key(key@),
            r matches Some(v) ==> v == old(self)@[key@],
            r is None ==> final(self).rows() == old(self).rows(),
    {
        match self.find(key) {
            Some(i) => Some(self.remove_at(i)),
            None => {
                assert(self@.remove(key@) =~= self@);
                None
            },
        }
    }
}

/// What was put under a key is found there, and only there; taking it out leaves the other
/// keys as they were.
pub proof fn what_is_put_in_is_found<V>(
    t: &mut Table<V>,
    key: &[u8],
    value: V,
    before: Option<V>,
    got: Option<&V>,
    u: &mut Table<V>,
    out: Option<V>,
    here: bool,
    other: Seq<u8>,
)
    requires
        other != key@,
        call_ensures(Table::<V>::insert, (t, key, value), before),
        call_ensures(Table::<V>::get, (&*final(t), key), got),
        *old(u) == *final(t),
        call_ensures(Table::<V>::remove, (u, key), out),
        call_ensures(Table::<V>::contains, (&*final(u), key), here),
    ensures
        got is Some && *got->0 == value,
        out == Some(value),
        !here,
        before is Some <==> old(t)@.contains_key(key@),
        before is Some ==> before->0 == old(t)@[key@],
        final(t)@.contains_key(other) == old(t)@.contains_key(other),
        final(u)@.contains_key(other) == old(t)@.contains_key(other),
        old(t)@.contains_key(other) ==> final(t)@[other] == old(t)@[other] && final(u)@[other]
            == old(t)@[other],
{
}

/// A table that was just made holds nothing.
pub proof fn a_new_table_is_empty<V>(t: Table<V>, key: &[u8], here: bool, n: usize)
    requires
        call_ensures(Table::<V>::new, (), t),
        call_ensures(Table::<V>::contains, (&t, key), here),
        call_ensures(Table::<V>::len, (&t,), n),
    ensures
        !here,
        n == 0,
{
}

} // verus!
