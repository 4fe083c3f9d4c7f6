//! A small association table whose keys are compared by what they name.

use vstd::prelude::*;

verus! {

/// A key of a [`Table`]: two keys with the same name address the same entry.
pub trait TableKey: Sized {
    /// What the key stands for.
    type Name;

    spec fn name(&self) -> Self::Name;

    fn same(&self, other: &Self) -> (r: bool)
        ensures
            r == (self.name() == other.name()),
    ;
}

impl TableKey for u64 {
    type Name = u64;

    open spec fn name(&self) -> u64 {
        *self
    }

    fn same(&self, other: &Self) -> (r: bool) {
        *self == *other
    }
}

impl TableKey for u128 {
    type Name = u128;

    open spec fn name(&self) -> u128 {
        *self
    }

    fn same(&self, other: &Self) -> (r: bool) {
        *self == *other
    }
}

impl TableKey for usize {
    type Name = usize;

    open spec fn name(&self) -> usize {
        *self
    }

    fn same(&self, other: &Self) -> (r: bool) {
        *self == *other
    }
}

impl TableKey for String {
    type Name = Seq<char>;

    open spec fn name(&self) -> Seq<char> {
        self@
    }

    fn same(&self, other: &Self) -> (r: bool) {
        *self == *other
    }
}

/// A finite map stored as rows with pairwise different key names.
pub struct Table<K: TableKey, V> {
    rows: Vec<(K, V)>,
}

spec fn distinct<K: TableKey, V>(rows: Seq<(K, V)>) -> bool {
    forall|i: int, j: int|
        0 <= i < j < rows.len() ==> #[trigger] rows[i].0.name() != #[trigger] rows[j].0.name()
}

spec fn holds<K: TableKey, V>(rows: Seq<(K, V)>, k: K::Name) -> bool {
    exists|i: int| 0 <= i < rows.len() && #[trigger] rows[i].0.name() == k
}

spec fn position<K: TableKey, V>(rows: Seq<(K, V)>, k: K::Name) -> int {
    choose|i: int| 0 <= i < rows.len() && #[trigger] rows[i].0.name() == k
}

spec fn contents<K: TableKey, V>(rows: Seq<(K, V)>) -> Map<K::Name, V> {
    Map::new(|k: K::Name| holds(rows, k), |k: K::Name| rows[position(rows, k)].1)
}

/// The entries of `m` that satisfy `p`.
pub open spec fn kept<N, V>(m: Map<N, V>, p: spec_fn(N, V) -> bool) -> Map<N, V> {
    Map::new(|k: N| m.dom().contains(k) && p(k, m[k]), |k: N| m[k])
}

proof fn lemma_row<K: TableKey, V>(rows: Seq<(K, V)>, i: int)
    requires
        distinct(rows),
        0 <= i < rows.len(),
    ensures
        holds(rows, rows[i].0.name()),
        position(rows, rows[i].0.name()) == i,
        contents(rows).dom().contains(rows[i].0.name()),
        contents(rows)[rows[i].0.name()] == rows[i].1,
{
    let k = rows[i].0.name();
    let j = position(rows, k);
    assert(0 <= j < rows.len() && rows[j].0.name() == k);
    if i < j {
        assert(rows[i].0.name() != rows[j].0.name());
    }
    if j < i {
        assert(rows[j].0.name() != rows[i].0.name());
    }
}

proof fn lemma_len<K: TableKey, V>(rows: Seq<(K, V)>)
    requires
        distinct(rows),
    ensures
        contents(rows).dom().finite(),
        contents(rows).dom().len() == rows.len(),
    decreases rows.len(),
{
    if rows.len() == 0 {
        assert(contents(rows).dom() =~= Set::empty());
    } else {
        let rest = rows.drop_last();
        assert(distinct(rest)) by {
            assert forall|i: int, j: int| 0 <= i < j < rest.len() implies #[trigger] rest[i].0.name()
                != #[trigger] rest[j].0.name() by {
                assert(rows[i].0.name() != rows[j].0.name());
            }
        }
        lemma_len(rest);
        let k = rows.last().0.name();
        assert(!contents(rest).dom().contains(k)) by {
            if holds(rest, k) {
                let j = position(rest, k);
                assert(rows[j].0.name() != rows[rows.len() - 1].0.name());
            }
        }
        assert(contents(rows).dom() =~= contents(rest).dom().insert(k)) by {
            assert forall|n: K::Name| #[trigger]
                contents(rows).dom().contains(n) == contents(rest).dom().insert(k).contains(n) by {
                if holds(rows, n) {
                    let j = position(rows, n);
                    if j < rest.len() {
                        assert(rest[j].0.name() == n);
                    }
                }
                if holds(rest, n) {
                    let j = position(rest, n);
                    assert(rows[j].0.name() == n);
                }
                if n == k {
                    assert(rows[rows.len() - 1].0.name() == n);
                }
            }
        }
    }
}

proof fn lemma_update<K: TableKey, V>(rows: Seq<(K, V)>, i: int, v: V)
    requires
        distinct(rows),
        0 <= i < rows.len(),
    ensures
        distinct(rows.update(i, (rows[i].0, v))),
        contents(rows.update(i, (rows[i].0, v))) == contents(rows).insert(rows[i].0.name(), v),
{
    let new = rows.update(i, (rows[i].0, v));
    assert forall|a: int, b: int| 0 <= a < b < new.len() implies #[trigger] new[a].0.name()
        != #[trigger] new[b].0.name() by {
        assert(rows[a].0.name() != rows[b].0.name());
    }
    let k = rows[i].0.name();
    assert forall|n: K::Name| #[trigger]
        contents(new).dom().contains(n) == contents(rows).insert(k, v).dom().contains(n) by {
        if holds(rows, n) {
            let j = position(rows, n);
            assert(new[j].0.name() == n);
        }
        if holds(new, n) {
            let j = position(new, n);
            assert(rows[j].0.name() == n);
        }
        assert(new[i].0.name() == k);
    }
    assert forall|n: K::Name| #[trigger] contents(new).dom().contains(n) implies contents(new)[n]
        == contents(rows).insert(k, v)[n] by {
        let j = position(new, n);
        assert(new[j].0.name() == n);
        lemma_row(new, j);
        lemma_row(rows, j);
        assert(rows[j].0.name() == n);
        lemma_row(rows, i);
    }
    assert(contents(new) =~= contents(rows).insert(k, v));
}

proof fn lemma_push<K: TableKey, V>(rows: Seq<(K, V)>, row: (K, V))
    requires
        distinct(rows),
        !holds(rows, row.0.name()),
    ensures
        distinct(rows.push(row)),
        contents(rows.push(row)) == contents(rows).insert(row.0.name(), row.1),
{
    let new = rows.push(row);
    let k = row.0.name();
    assert forall|a: int, b: int| 0 <= a < b < new.len() implies #[trigger] new[a].0.name()
        != #[trigger] new[b].0.name() by {
        assert(rows[a].0.name() == new[a].0.name());
        if b < rows.len() {
            assert(rows[a].0.name() != rows[b].0.name());
        }
    }
    assert forall|n: K::Name| #[trigger]
        contents(new).dom().contains(n) == contents(rows).insert(k, row.1).dom().contains(n) by {
        if holds(rows, n) {
            let j = position(rows, n);
            assert(new[j].0.name() == n);
        }
        if holds(new, n) {
            let j = position(new, n);
            if j < rows.len() {
                assert(rows[j].0.name() == n);
            }
        }
        assert(new[rows.len() as int].0.name() == k);
    }
    assert forall|n: K::Name| #[trigger] contents(new).dom().contains(n) implies contents(new)[n]
        == contents(rows).insert(k, row.1)[n] by {
        let j = position(new, n);
        assert(new[j].0.name() == n);
        lemma_row(new, j);
        if j < rows.len() {
            lemma_row(rows, j);
            assert(rows[j].0.name() == n);
        }
    }
    assert(contents(new) =~= contents(rows).insert(k, row.1));
}

proof fn lemma_remove<K: TableKey, V>(rows: Seq<(K, V)>, i: int)
    requires
        distinct(rows),
        0 <= i < rows.len(),
    ensures
        distinct(rows.remove(i)),
        contents(rows.remove(i)) == contents(rows).remove(rows[i].0.name()),
{
    let new = rows.remove(i);
    let k = rows[i].0.name();
    assert forall|a: int, b: int| 0 <= a < b < new.len() implies #[trigger] new[a].0.name()
        != #[trigger] new[b].0.name() by {
        let a2 = if a < i { a } else { a + 1 };
        let b2 = if b < i { b } else { b + 1 };
        assert(rows[a2].0.name() != rows[b2].0.name());
    }
    assert forall|n: K::Name| #[trigger]
        contents(new).dom().contains(n) == contents(rows).remove(k).dom().contains(n) by {
        if holds(rows, n) && n != k {
            let j = position(rows, n);
            let j2 = if j < i { j } else { j - 1 };
            assert(new[j2].0.name() == n);
        }
        if holds(new, n) {
            let j = position(new, n);
            let j2 = if j < i { j } else { j + 1 };
            assert(rows[j2].0.name() == n);
            if j2 < i {
                assert(rows[j2].0.name() != rows[i].0.name());
            } else {
                assert(rows[i].0.name() != rows[j2].0.name());
            }
        }
    }
    assert forall|n: K::Name| #[trigger] contents(new).dom().contains(n) implies contents(new)[n]
        == contents(rows).remove(k)[n] by {
        let j = position(new, n);
        assert(new[j].0.name() == n);
        lemma_row(new, j);
        let j2 = if j < i { j } else { j + 1 };
        lemma_row(rows, j2);
        assert(rows[j2].0.name() == n);
    }
    assert(contents(new) =~= contents(rows).remove(k));
}

impl<K: TableKey, V> Table<K, V> {
    /// No two rows share a key name.
    pub closed spec fn wf(&self) -> bool {
        distinct(self.rows@)
    }

    pub closed spec fn view(&self) -> Map<K::Name, V> {
        contents(self.rows@)
    }

    /// The rows in storage order.
    pub closed spec fn seq(&self) -> Seq<(K, V)> {
        self.rows@
    }

    /// Every row is an entry of the view, and every entry is a row.
    pub proof fn lemma_seq(&self)
        requires
            self.wf(),
        ensures
            self@.dom().finite(),
            self@.dom().len() == self.seq().len(),
            forall|i: int|
                0 <= i < self.seq().len() ==> {
                    &&& self@.dom().contains((#[trigger] self.seq()[i]).0.name())
                    &&& self@[self.seq()[i].0.name()] == self.seq()[i].1
                },
            forall|k: K::Name| #[trigger]
                self@.dom().contains(k) ==> exists|i: int|
                    0 <= i < self.seq().len() && (#[trigger] self.seq()[i]).0.name() == k,
            forall|i: int, j: int|
                0 <= i < j < self.seq().len() ==> (#[trigger] self.seq()[i]).0.name() != (
                #[trigger] self.seq()[j]).0.name(),
    {
        lemma_len(self.rows@);
        assert forall|i: int| 0 <= i < self.seq().len() implies {
            &&& self@.dom().contains((#[trigger] self.seq()[i]).0.name())
            &&& self@[self.seq()[i].0.name()] == self.seq()[i].1
        } by {
            lemma_row(self.rows@, i);
        }
        assert forall|k: K::Name| #[trigger] self@.dom().contains(k) implies exists|i: int|
            0 <= i < self.seq().len() && (#[trigger] self.seq()[i]).0.name() == k by {
            assert(holds(self.rows@, k));
            let j = position(self.rows@, k);
            assert(self.seq()[j].0.name() == k);
        }
    }

    pub fn new() -> (table: Self)
        ensures
            table.wf(),
            table@ == Map::<K::Name, V>::empty(),
            table.seq() == Seq::<(K, V)>::empty(),
    {
        let table = Table { rows: Vec::new() };
        assert(table@ =~= Map::<K::Name, V>::empty());
        table
    }

    pub fn len(&self) -> (n: usize)
        requires
            self.wf(),
        ensures
            n == self@.dom().len(),
            n == self.seq().len(),
            self@.dom().finite(),
    {
        proof {
            lemma_len(self.rows@);
        }
        self.rows.len()
    }

    /// The row at a storage position.
    pub fn row(&self, i: usize) -> (row: &(K, V))
        requires
            self.wf(),
            i < self.seq().len(),
        ensures
            *row == self.seq()[i as int],
            self@.dom().contains(row.0.name()),
            self@[row.0.name()] == row.1,
    {
        proof {
            lemma_row(self.rows@, i as int);
        }
        &self.rows[i]
    }

    /// A mutable borrow of the value at a storage position.
    pub(crate) fn value_mut(&mut self, i: usize) -> (v: &mut V)
        requires
            old(self).wf(),
            i < old(self).seq().len(),
        ensures
            final(self).wf(),
            *v == old(self).seq()[i as int].1,
            final(self).seq() == old(self).seq().update(
                i as int,
                (old(self).seq()[i as int].0, *final(v)),
            ),
    {
        proof {
            assert forall|v: V| distinct(
                #[trigger] self.rows@.update(i as int, (self.rows@[i as int].0, v)),
            ) by {
                lemma_update(self.rows@, i as int, v);
            }
        }
        &mut self.rows[i].1
    }

    fn find(&self, k: &K) -> (found: Option<usize>)
        requires
            self.wf(),
        ensures
            match found {
                Some(i) => i < self.seq().len() && self.seq()[i as int].0.name() == k.name(),
                None => !holds(self.rows@, k.name()),
            },
    {
        let mut i: usize = 0;
        while i < self.rows.len()
            invariant
                i <= self.rows.len(),
                forall|j: int| 0 <= j < i ==> (#[trigger] self.rows@[j]).0.name() != k.name(),
            decreases self.rows.len() - i,
        {
            if self.rows[i].0.same(k) {
                return Some(i);
            }
            i += 1;
        }
        None
    }

    pub fn contains(&self, k: &K) -> (r: bool)
        requires
            self.wf(),
        ensures
            r == self@.dom().contains(k.name()),
    {
        match self.find(k) {
            Some(i) => {
                proof {
                    lemma_row(self.rows@, i as int);
                }
                true
            },
            None => false,
        }
    }

    pub fn get(&self, k: &K) -> (r: Option<&V>)
        requires
            self.wf(),
        ensures
            match r {
                Some(v) => self@.dom().contains(k.name()) && *v == self@[k.name()],
                None => !self@.dom().contains(k.name()),
            },
    {
        match self.find(k) {
            Some(i) => {
                proof {
                    lemma_row(self.rows@, i as int);
                }
                Some(&self.rows[i].1)
            },
            None => None,
        }
    }

    /// A mutable borrow of an entry, if it is there.
    pub fn get_mut(&mut self, k: &K) -> (r: Option<&mut V>)
        requires
            old(self).wf(),
        ensures
            final(self).wf(),
            match r {
                Some(v) => {
                    &&& old(self)@.dom().contains(k.name())
                    &&& *v == old(self)@[k.name()]
                    &&& final(self)@ == old(self)@.insert(k.name(), *final(v))
                },
                None => !old(self)@.dom().contains(k.name()) && final(self)@ == old(self)@,
            },
    {
        match self.find(k) {
            Some(i) => {
                proof {
                    lemma_row(self.rows@, i as int);
                    assert forall|v: V|
                        distinct(#[trigger] self.rows@.update(i as int, (self.rows@[i as int].0, v)))
                            && contents(self.rows@.update(i as int, (self.rows@[i as int].0, v)))
                            == contents(self.rows@).insert(k.name(), v) by {
                        lemma_update(self.rows@, i as int, v);
                    }
                }
                Some(&mut self.rows[i].1)
            },
            None => None,
        }
    }

    /// Binds `k` to `v` and hands back what it was bound to.
    pub fn insert(&mut self, k: K, v: V) -> (previous: Option<V>)
        requires
            old(self).wf(),
        ensures
            final(self).wf(),
            final(self)@ == old(self)@.insert(k.name(), v),
            match previous {
                Some(p) => old(self)@.dom().contains(k.name()) && p == old(self)@[k.name()],
                None => !old(self)@.dom().contains(k.name()),
            },
    {
        match self.find(&k) {
            Some(i) => {
                proof {
                    lemma_row(self.rows@, i as int);
                    lemma_update(self.rows@, i as int, v);
                }
                let mut value = v;
                core::mem::swap(&mut self.rows[i].1, &mut value);
                Some(value)
            },
            None => {
                proof {
                    lemma_push(self.rows@, (k, v));
                }
                self.rows.push((k, v));
                None
            },
        }
    }

    /// A mutable borrow of an entry, which is made first where it is not
    /// there.
    pub fn entry(&mut self, k: K, fresh: V) -> (v: &mut V)
        requires
            old(self).wf(),
        ensures
            final(self).wf(),
            *v == if old(self)@.dom().contains(k.name()) {
                old(self)@[k.name()]
            } else {
                fresh
            },
            final(self)@ == old(self)@.insert(k.name(), *final(v)),
    {
        let ghost name = k.name();
        let ghost before = self.rows@;
        let i: usize = match self.find(&k) {
            Some(i) => {
                proof {
                    lemma_row(self.rows@, i as int);
                }
                i
            },
            None => {
                proof {
                    lemma_push(self.rows@, (k, fresh));
                }
                self.rows.push((k, fresh));
                proof {
                    lemma_row(self.rows@, before.len() as int);
                }
                self.rows.len() - 1
            },
        };
        proof {
            assert forall|v: V| distinct(
                #[trigger] self.rows@.update(i as int, (self.rows@[i as int].0, v)),
            ) && contents(self.rows@.update(i as int, (self.rows@[i as int].0, v))) == contents(
                before,
            ).insert(name, v) by {
                lemma_update(self.rows@, i as int, v);
                assert(contents(self.rows@).insert(name, v) =~= contents(before).insert(name, v));
            }
        }
        &mut self.rows[i].1
    }

    pub fn remove(&mut self, k: &K) -> (removed: Option<V>)
        requires
            old(self).wf(),
        ensures
            final(self).wf(),
            final(self)@ == old(self)@.remove(k.name()),
            match removed {
                Some(v) => old(self)@.dom().contains(k.name()) && v == old(self)@[k.name()],
                None => !old(self)@.dom().contains(k.name()) && final(self)@ == old(self)@,
            },
    {
        match self.find(k) {
            Some(i) => {
                proof {
                    lemma_row(self.rows@, i as int);
                    lemma_remove(self.rows@, i as int);
                }
                Some(self.rows.remove(i).1)
            },
            None => {
                assert(self@.remove(k.name()) =~= self@);
                None
            },
        }
    }

    /// Takes out the row at a storage position.
    pub(crate) fn remove_row(&mut self, i: usize) -> (row: (K, V))
        requires
            old(self).wf(),
            i < old(self).seq().len(),
        ensures
            final(self).wf(),
            row == old(self).seq()[i as int],
            final(self)@ == old(self)@.remove(row.0.name()),
            old(self)@.dom().contains(row.0.name()),
            old(self)@[row.0.name()] == row.1,
    {
        proof {
            lemma_row(self.rows@, i as int);
            lemma_remove(self.rows@, i as int);
        }
        self.rows.remove(i)
    }

    pub fn clear(&mut self)
        ensures
            final(self).wf(),
            final(self)@ == Map::<K::Name, V>::empty(),
    {
        self.rows.clear();
        assert(self@ =~= Map::<K::Name, V>::empty());
    }

    /// Drops every entry that `keep` refuses; `p` says what `keep` decides.
    pub(crate) fn retain<F: Fn(&K, &V) -> bool>(
        &mut self,
        keep: F,
        Ghost(p): Ghost<spec_fn(K::Name, V) -> bool>,
    )
        requires
            old(self).wf(),
            forall|k: &K, v: &V| #[trigger] keep.requires((k, v)),
            forall|k: &K, v: &V, r: bool|
                #[trigger] keep.ensures((k, v), r) ==> r == p(k.name(), *v),
        ensures
            final(self).wf(),
            final(self)@ == kept(old(self)@, p),
    {
        let mut i: usize = 0;
        while i < self.rows.len()
            invariant
                i <= self.rows.len(),
                distinct(self.rows@),
                forall|k: &K, v: &V| #[trigger] keep.requires((k, v)),
                forall|k: &K, v: &V, r: bool|
                    #[trigger] keep.ensures((k, v), r) ==> r == p(k.name(), *v),
                forall|j: int|
                    0 <= j < i ==> p((#[trigger] self.rows@[j]).0.name(), self.rows@[j].1),
                kept(contents(self.rows@), p) == kept(old(self)@, p),
            decreases self.rows.len() - i,
        {
            let keeps = keep(&self.rows[i].0, &self.rows[i].1);
            if keeps {
                i += 1;
            } else {
                proof {
                    lemma_row(self.rows@, i as int);
                    lemma_remove(self.rows@, i as int);
                }
                let ghost before = contents(self.rows@);
                let ghost k = self.rows@[i as int].0.name();
                let _ = self.rows.remove(i);
                assert(kept(before.remove(k), p) =~= kept(before, p));
            }
        }
        assert(contents(self.rows@) =~= kept(contents(self.rows@), p)) by {
            assert forall|n: K::Name| contents(self.rows@).dom().contains(n) implies p(
                n,
                contents(self.rows@)[n],
            ) by {
                assert(holds(self.rows@, n));
                let j = position(self.rows@, n);
                lemma_row(self.rows@, j);
                assert(self.rows@[j].0.name() == n);
            }
        }
    }

    /// Removes every entry that `pick` selects and hands them out, in no
    /// particular order; `p` says what `pick` decides.
    pub(crate) fn take_where<F: Fn(&K, &V) -> bool>(
        &mut self,
        pick: F,
        Ghost(p): Ghost<spec_fn(K::Name, V) -> bool>,
    ) -> (taken: Vec<(K, V)>)
        requires
            old(self).wf(),
            forall|k: &K, v: &V| #[trigger] pick.requires((k, v)),
            forall|k: &K, v: &V, r: bool|
                #[trigger] pick.ensures((k, v), r) ==> r == p(k.name(), *v),
        ensures
            final(self).wf(),
            final(self)@ == kept(old(self)@, |k: K::Name, v: V| !p(k, v)),
            forall|i: int|
                0 <= i < taken@.len() ==> {
                    let name = (#[trigger] taken@[i]).0.name();
                    &&& old(self)@.dom().contains(name)
                    &&& old(self)@[name] == taken@[i].1
                    &&& p(name, taken@[i].1)
                },
            forall|k: K::Name|
                #[trigger] old(self)@.dom().contains(k) && p(k, old(self)@[k]) ==> exists|i: int|
                    0 <= i < taken@.len() && (#[trigger] taken@[i]).0.name() == k,
            forall|i: int, j: int|
                0 <= i < j < taken@.len() ==> (#[trigger] taken@[i]).0.name() != (
                #[trigger] taken@[j]).0.name(),
    {
        let mut taken: Vec<(K, V)> = Vec::new();
        let ghost rest = |k: K::Name, v: V| !p(k, v);
        let mut i: usize = 0;
        while i < self.rows.len()
            invariant
                i <= self.rows.len(),
                distinct(self.rows@),
                forall|k: &K, v: &V| #[trigger] pick.requires((k, v)),
                forall|k: &K, v: &V, r: bool|
                    #[trigger] pick.ensures((k, v), r) ==> r == p(k.name(), *v),
                rest == (|k: K::Name, v: V| !p(k, v)),
                forall|j: int|
                    0 <= j < i ==> !p((#[trigger] self.rows@[j]).0.name(), self.rows@[j].1),
                kept(contents(self.rows@), rest) == kept(old(self)@, rest),
                forall|k: K::Name|
                    #[trigger] contents(self.rows@).dom().contains(k) ==> {
                        &&& old(self)@.dom().contains(k)
                        &&& old(self)@[k] == contents(self.rows@)[k]
                    },
                forall|j: int|
                    0 <= j < taken@.len() ==> {
                        let name = (#[trigger] taken@[j]).0.name();
                        &&& old(self)@.dom().contains(name)
                        &&& old(self)@[name] == taken@[j].1
                        &&& p(name, taken@[j].1)
                        &&& !contents(self.rows@).dom().contains(name)
                    },
                forall|k: K::Name|
                    #[trigger] old(self)@.dom().contains(k) && p(k, old(self)@[k])
                        && !contents(self.rows@).dom().contains(k) ==> exists|j: int|
                        0 <= j < taken@.len() && (#[trigger] taken@[j]).0.name() == k,
                forall|a: int, b: int|
                    0 <= a < b < taken@.len() ==> (#[trigger] taken@[a]).0.name() != (
                    #[trigger] taken@[b]).0.name(),
            decreases self.rows.len() - i,
        {
            let picked = pick(&self.rows[i].0, &self.rows[i].1);
            if !picked {
                i += 1;
            } else {
                proof {
                    lemma_row(self.rows@, i as int);
                    lemma_remove(self.rows@, i as int);
                }
                let ghost before = contents(self.rows@);
                let ghost k = self.rows@[i as int].0.name();
                let ghost taken_before = taken@;
                let row = self.rows.remove(i);
                taken.push(row);
                proof {
                    assert(kept(before.remove(k), rest) =~= kept(before, rest));
                    assert forall|n: K::Name|
                        #[trigger] old(self)@.dom().contains(n) && p(n, old(self)@[n])
                            && !contents(self.rows@).dom().contains(n) implies exists|j: int|
                        0 <= j < taken@.len() && (#[trigger] taken@[j]).0.name() == n by {
                        if n == k {
                            assert(taken@[taken@.len() - 1].0.name() == n);
                        } else {
                            assert(!before.dom().contains(n));
                            let j = choose|j: int|
                                0 <= j < taken_before.len() && (#[trigger] taken_before[j]).0.name()
                                    == n;
                            assert(taken@[j].0.name() == n);
                        }
                    }
                }
            }
        }
        proof {
            assert forall|n: K::Name| #[trigger] contents(self.rows@).dom().contains(n) implies !p(
                n,
                contents(self.rows@)[n],
            ) by {
                assert(holds(self.rows@, n));
                let j = position(self.rows@, n);
                lemma_row(self.rows@, j);
                assert(self.rows@[j].0.name() == n);
            }
            assert(contents(self.rows@) =~= kept(contents(self.rows@), rest));
        }
        taken
    }
}

/// A row is kept exactly where it was there and passes, and it keeps its value.
pub proof fn law_kept_rows<N, V>(m: Map<N, V>, p: spec_fn(N, V) -> bool, k: N)
    ensures
        kept(m, p).dom().contains(k) <==> m.dom().contains(k) && p(k, m[k]),
        kept(m, p).dom().contains(k) ==> kept(m, p)[k] == m[k],
{
}

} // verus!
