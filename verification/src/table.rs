//! Tables of rows with a key: a row is stored once per key, and keeps its
//! place when it is stored again.
use vstd::prelude::*;

verus! {

/// The contents of a row that has a key.
pub trait Keyed {
    spec fn key(self) -> Seq<char>;
}

/// A row of a table.
pub trait Row: Sized {
    type M: Keyed;

    /// What the row holds.
    spec fn model(&self) -> Self::M;

    /// The row's key.
    fn row_key(&self) -> (r: &str)
        ensures
            r@ == self.model().key(),
    ;
}

/// The place of the row with key `k`, or the number of rows where there is
/// none.
pub open spec fn slot<M: Keyed>(s: Seq<M>, k: Seq<char>) -> int
    decreases s.len(),
{
    if s.len() == 0 {
        0
    } else if s[0].key() == k {
        0
    } else {
        1 + slot(s.drop_first(), k)
    }
}

/// There is a row with key `k`.
pub open spec fn holds<M: Keyed>(s: Seq<M>, k: Seq<char>) -> bool {
    slot(s, k) < s.len()
}

/// The row with key `k`.
pub open spec fn get<M: Keyed>(s: Seq<M>, k: Seq<char>) -> Option<M> {
    if holds(s, k) {
        Some(s[slot(s, k)])
    } else {
        None
    }
}

/// The rows after `m` is stored: in place of the row with its key, or behind
/// all others.
pub open spec fn stored<M: Keyed>(s: Seq<M>, m: M) -> Seq<M> {
    if holds(s, m.key()) {
        s.update(slot(s, m.key()), m)
    } else {
        s.push(m)
    }
}

/// The rows after all of `more` are stored, one after the other.
pub open spec fn stored_all<M: Keyed>(s: Seq<M>, more: Seq<M>) -> Seq<M>
    decreases more.len(),
{
    if more.len() == 0 {
        s
    } else {
        stored(stored_all(s, more.drop_last()), more.last())
    }
}

/// No two rows share a key.
pub open spec fn distinct<M: Keyed>(s: Seq<M>) -> bool {
    forall|i: int, j: int|
        0 <= i < j < s.len() ==> (#[trigger] s[i]).key() != (#[trigger] s[j]).key()
}

/// `slot` finds the first row with the key.
pub proof fn lemma_slot<M: Keyed>(s: Seq<M>, k: Seq<char>)
    ensures
        0 <= slot(s, k) <= s.len(),
        holds(s, k) ==> s[slot(s, k)].key() == k,
        forall|i: int| 0 <= i < slot(s, k) ==> (#[trigger] s[i]).key() != k,
    decreases s.len(),
{
    if s.len() > 0 && s[0].key() != k {
        let t = s.drop_first();
        lemma_slot(t, k);
        assert forall|i: int| 0 <= i < slot(s, k) implies (#[trigger] s[i]).key() != k by {
            if i > 0 {
                assert(t[i - 1] == s[i]);
            }
        }
    }
}

/// A place that holds the key, and before which nothing does, is the slot.
pub proof fn lemma_slot_is<M: Keyed>(s: Seq<M>, k: Seq<char>, at: int)
    requires
        0 <= at <= s.len(),
        at < s.len() ==> s[at].key() == k,
        forall|i: int| 0 <= i < at ==> (#[trigger] s[i]).key() != k,
    ensures
        slot(s, k) == at,
{
    lemma_slot(s, k);
    if slot(s, k) < at {
        assert(s[slot(s, k)].key() != k);
    }
    if at < slot(s, k) {
        assert(s[at].key() != k);
    }
}

/// Storing keeps the keys distinct, gives back what was stored, and touches no
/// other key.
pub proof fn lemma_stored<M: Keyed>(s: Seq<M>, m: M)
    requires
        distinct(s),
    ensures
        distinct(stored(s, m)),
        get(stored(s, m), m.key()) == Some(m),
        forall|k: Seq<char>| k != m.key() ==> #[trigger] get(stored(s, m), k) == get(s, k),
        forall|k: Seq<char>| holds(s, k) ==> #[trigger] holds(stored(s, m), k),
{
    let t = stored(s, m);
    let at = slot(s, m.key());
    lemma_slot(s, m.key());
    assert(forall|i: int| 0 <= i < s.len() && i != at ==> (#[trigger] s[i]).key() != m.key());
    assert(forall|i: int| 0 <= i < s.len() && i != at ==> (#[trigger] t[i]) == s[i]);
    assert(distinct(t)) by {
        assert forall|i: int, j: int| 0 <= i < j < t.len() implies (#[trigger] t[i]).key() != (
        #[trigger] t[j]).key() by {
            if i < s.len() {
                let _ = s[i].key();
            }
            if j < s.len() {
                let _ = s[j].key();
            }
        }
    }
    lemma_slot_is(t, m.key(), at);
    assert forall|k: Seq<char>| k != m.key() implies #[trigger] get(t, k) == get(s, k) by {
        lemma_slot(s, k);
        let p = slot(s, k);
        if p < s.len() {
            lemma_slot_is(t, k, p);
        } else {
            lemma_slot_is(t, k, t.len() as int);
        }
    }
    assert forall|k: Seq<char>| holds(s, k) implies #[trigger] holds(t, k) by {
        if k != m.key() {
            assert(get(t, k) == get(s, k));
        }
    }
}

/// A row takes the place of the one with its key, or comes behind all others,
/// and storing it again changes nothing. The keys stay distinct.
pub proof fn law_stored_once<M: Keyed>(s: Seq<M>, m: M)
    requires
        distinct(s),
    ensures
        distinct(stored(s, m)),
        forall|i: int|
            0 <= i < s.len() && (#[trigger] s[i]).key() == m.key() ==> stored(s, m) == s.update(
                i,
                m,
            ),
        (forall|i: int| 0 <= i < s.len() ==> (#[trigger] s[i]).key() != m.key()) ==> stored(s, m)
            == s.push(m),
        stored(stored(s, m), m) == stored(s, m),
{
    let t = stored(s, m);
    let at = slot(s, m.key());
    lemma_stored(s, m);
    lemma_slot(s, m.key());
    lemma_slot_is(t, m.key(), at);
    assert(t.update(at, m) =~= t);
    assert forall|i: int| 0 <= i < s.len() && (#[trigger] s[i]).key() == m.key() implies t
        == s.update(i, m) by {
        if i != at {
            assert(at < i);
            assert(s[at].key() != s[i].key());
        }
    }
}

/// Storing rows keeps the keys distinct.
pub proof fn lemma_stored_all_distinct<M: Keyed>(s: Seq<M>, more: Seq<M>)
    requires
        distinct(s),
    ensures
        distinct(stored_all(s, more)),
    decreases more.len(),
{
    if more.len() > 0 {
        lemma_stored_all_distinct(s, more.drop_last());
        lemma_stored(stored_all(s, more.drop_last()), more.last());
    }
}

/// Rows with distinct keys are stored as they are.
pub proof fn lemma_stored_all_fresh<M: Keyed>(more: Seq<M>)
    requires
        distinct(more),
    ensures
        stored_all(Seq::empty(), more) == more,
    decreases more.len(),
{
    if more.len() > 0 {
        let init = more.drop_last();
        assert(distinct(init)) by {
            assert forall|i: int, j: int| 0 <= i < j < init.len() implies (#[trigger] init[i]).key()
                != (#[trigger] init[j]).key() by {
                assert(more[i].key() != more[j].key());
            }
        }
        lemma_stored_all_fresh(init);
        lemma_slot(init, more.last().key());
        let p = slot(init, more.last().key());
        if p < init.len() {
            assert(more[p].key() != more[more.len() - 1].key());
        }
        assert(init.push(more.last()) =~= more);
    } else {
        assert(more =~= Seq::empty());
    }
}

/// A table: rows with distinct keys, in the order in which their keys were
/// first stored.
pub struct Table<R: Row> {
    rows: Vec<R>,
}

impl<R: Row> View for Table<R> {
    type V = Seq<R::M>;

    closed spec fn view(&self) -> Seq<R::M> {
        Seq::new(self.rows@.len(), |i: int| self.rows@[i].model())
    }
}

impl<R: Row> Table<R> {
    /// No two rows share a key.
    pub open spec fn wf(&self) -> bool {
        distinct(self@)
    }

    /// A table without rows.
    pub fn new() -> (r: Self)
        ensures
            r.wf(),
            r@ == Seq::<R::M>::empty(),
    {
        let r = Table { rows: Vec::new() };
        assert(r@ =~= Seq::<R::M>::empty());
        r
    }

    /// The number of rows.
    pub fn len(&self) -> (n: usize)
        ensures
            n == self@.len(),
    {
        self.rows.len()
    }

    /// The row at a place.
    pub fn at(&self, i: usize) -> (r: &R)
        requires
            i < self@.len(),
        ensures
            r.model() == self@[i as int],
    {
        &self.rows[i]
    }

    /// All rows.
    pub fn rows(&self) -> (r: &Vec<R>)
        ensures
            r@.len() == self@.len(),
            forall|i: int| 0 <= i < r@.len() ==> (#[trigger] r@[i]).model() == self@[i],
    {
        &self.rows
    }

    /// The place of the row with a key.
    pub fn find(&self, key: &str) -> (r: Option<usize>)
        ensures
            match r {
                Some(i) => i < self@.len() && i == slot(self@, key@),
                None => !holds(self@, key@),
            },
    {
        let mut i: usize = 0;
        while i < self.rows.len()
            invariant
                i <= self.rows.len(),
                forall|k: int| 0 <= k < i ==> (#[trigger] self@[k]).key() != key@,
            decreases self.rows.len() - i,
        {
            assert(self@[i as int] == self.rows@[i as int].model());
            if *self.rows[i].row_key() == *key {
                proof {
                    lemma_slot_is(self@, key@, i as int);
                }
                return Some(i);
            }
            i += 1;
        }
        proof {
            lemma_slot_is(self@, key@, self@.len() as int);
        }
        None
    }

    /// Stores a row: in place of the row with its key, or behind all others.
    pub fn put(&mut self, row: R)
        requires
            old(self).wf(),
        ensures
            final(self).wf(),
            final(self)@ == stored(old(self)@, row.model()),
    {
        let ghost before = self@;
        proof {
            lemma_stored(before, row.model());
            lemma_slot(before, row.model().key());
        }
        match self.find(row.row_key()) {
            Some(i) => {
                let ghost m = row.model();
                self.rows.set(i, row);
                assert(self@ =~= before.update(i as int, m));
            },
            None => {
                let ghost m = row.model();
                self.rows.push(row);
                assert(self@ =~= before.push(m));
            },
        }
    }

    /// A table of given rows, stored one after the other.
    pub fn of(rows: Vec<R>) -> (r: Self)
        ensures
            r.wf(),
            r@ == stored_all(Seq::empty(), Seq::new(rows@.len(), |i: int| rows@[i].model())),
    {
        let mut table: Table<R> = Table::new();
        let ghost all = Seq::new(rows@.len(), |i: int| rows@[i].model());
        let ghost given = rows@;
        let mut rows: Vec<R> = rows;
        proof {
            assert(all.take(0) =~= Seq::empty());
        }
        let n: usize = rows.len();
        let mut rest: Vec<R> = Vec::new();
        while rows.len() > 0
            invariant
                n == given.len(),
                rows@.len() + rest@.len() == n,
                rows@ == given.take(rows@.len() as int),
                forall|k: int| 0 <= k < rest@.len() ==> #[trigger] rest@[k] == given[n - 1 - k],
            decreases rows.len(),
        {
            match rows.pop() {
                Some(row) => {
                    rest.push(row);
                },
                None => {},
            }
            assert(rows@ =~= given.take(rows@.len() as int));
        }
        let ghost mut done: int = 0;
        while rest.len() > 0
            invariant
                table.wf(),
                n == given.len(),
                done == n - rest@.len(),
                0 <= done <= n,
                all == Seq::new(given.len(), |i: int| given[i].model()),
                forall|k: int| 0 <= k < rest@.len() ==> #[trigger] rest@[k] == given[n - 1 - k],
                table@ == stored_all(Seq::empty(), all.take(done)),
            decreases rest.len(),
        {
            match rest.pop() {
                Some(row) => {
                    assert(row == given[done]);
                    assert(all.take(done + 1).drop_last() =~= all.take(done));
                    table.put(row);
                    proof {
                        done = done + 1;
                    }
                },
                None => {},
            }
        }
        proof {
            assert(all.take(n as int) =~= all);
        }
        table
    }
}

/// With distinct keys, every row is the one found under its key.
pub proof fn lemma_slot_of<M: Keyed>(s: Seq<M>, i: int)
    requires
        distinct(s),
        0 <= i < s.len(),
    ensures
        slot(s, s[i].key()) == i,
        get(s, s[i].key()) == Some(s[i]),
{
    assert forall|k: int| 0 <= k < i implies (#[trigger] s[k]).key() != s[i].key() by {}
    lemma_slot_is(s, s[i].key(), i);
}

/// The rows without the one with key `k`.
pub open spec fn removed<M: Keyed>(s: Seq<M>, k: Seq<char>) -> Seq<M> {
    if holds(s, k) {
        s.remove(slot(s, k))
    } else {
        s
    }
}

/// Removing keeps the keys distinct, leaves no row with the key, and touches
/// no other key.
pub proof fn lemma_removed<M: Keyed>(s: Seq<M>, k: Seq<char>)
    requires
        distinct(s),
    ensures
        distinct(removed(s, k)),
        !holds(removed(s, k), k),
        forall|o: Seq<char>| o != k ==> #[trigger] get(removed(s, k), o) == get(s, o),
{
    lemma_slot(s, k);
    let t = removed(s, k);
    let at = slot(s, k);
    if holds(s, k) {
        assert forall|i: int, j: int| 0 <= i < j < t.len() implies (#[trigger] t[i]).key() != (
        #[trigger] t[j]).key() by {
            let i0 = if i < at {
                i
            } else {
                i + 1
            };
            let j0 = if j < at {
                j
            } else {
                j + 1
            };
            assert(s[i0].key() != s[j0].key());
        }
        assert forall|i: int| 0 <= i < t.len() implies (#[trigger] t[i]).key() != k by {
            if i >= at {
                assert(s[at].key() != s[i + 1].key());
            }
        }
        lemma_slot_is(t, k, t.len() as int);
        assert forall|o: Seq<char>| o != k implies #[trigger] get(t, o) == get(s, o) by {
            lemma_slot(s, o);
            let p = slot(s, o);
            if p < s.len() {
                let q = if p < at {
                    p
                } else {
                    p - 1
                };
                assert forall|i: int| 0 <= i < q implies (#[trigger] t[i]).key() != o by {
                    if i < at {
                        assert(s[i].key() != o);
                    } else {
                        assert(s[i + 1].key() != o);
                    }
                }
                lemma_slot_is(t, o, q);
            } else {
                assert forall|i: int| 0 <= i < t.len() implies (#[trigger] t[i]).key() != o by {
                    if i < at {
                        assert(s[i].key() != o);
                    } else {
                        assert(s[i + 1].key() != o);
                    }
                }
                lemma_slot_is(t, o, t.len() as int);
            }
        }
    }
}

impl<R: Row> Table<R> {
    /// Removes the row with a key, if there is one.
    pub fn remove(&mut self, key: &str)
        requires
            old(self).wf(),
        ensures
            final(self).wf(),
            final(self)@ == removed(old(self)@, key@),
    {
        let ghost prior = self@;
        proof {
            lemma_removed(prior, key@);
        }
        if let Some(i) = self.find(key) {
            self.rows.remove(i);
            assert(self@ =~= prior.remove(i as int));
        }
    }
}

} // verus!
