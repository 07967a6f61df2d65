//! Keyed tables: rows with distinct keys, seen from outside as a map from key to row.

use vstd::prelude::*;

verus! {

/// A row that can be stored in a [`Table`] under its key.
pub trait Row: View + Sized {
    type Key: View;

    /// Key under which a row is stored.
    spec fn key_of(row: Self::V) -> <Self::Key as View>::V;

    fn has_key(&self, key: &Self::Key) -> (found: bool)
        ensures
            found == (Self::key_of(self@) == key@),
    ;

    fn same_key(&self, other: &Self) -> (same: bool)
        ensures
            same == (Self::key_of(self@) == Self::key_of(other@)),
    ;

    fn duplicate(&self) -> (copy: Self)
        ensures
            copy@ == self@,
    ;
}

/// A predicate on rows.
pub trait Condition<R: View> {
    spec fn holds(&self, row: R::V) -> bool;

    fn test(&self, row: &R) -> (held: bool)
        ensures
            held == self.holds(row@),
    ;
}

/// A strict weak order on rows.
pub trait Ranking<R: View> {
    spec fn before(&self, a: R::V, b: R::V) -> bool;

    fn is_before(&self, a: &R, b: &R) -> (r: bool)
        ensures
            r == self.before(a@, b@),
    ;

    proof fn asymmetric(&self, a: R::V, b: R::V)
        requires
            self.before(a, b),
        ensures
            !self.before(b, a),
    ;

    proof fn negatively_transitive(&self, a: R::V, b: R::V, c: R::V)
        requires
            !self.before(b, a),
            !self.before(c, b),
        ensures
            !self.before(c, a),
    ;
}

/// A change to rows that leaves their keys as they are.
pub trait Change<R: Row> {
    spec fn changed(&self, row: R::V) -> R::V;

    fn apply(&self, row: &R) -> (after: R)
        ensures
            after@ == self.changed(row@),
    ;

    proof fn keeps_key(&self, row: R::V)
        ensures
            R::key_of(self.changed(row)) == R::key_of(row),
    ;
}

/// The views of a sequence of rows.
pub open spec fn views<R: View>(rows: Seq<R>) -> Seq<R::V> {
    Seq::new(rows.len(), |i: int| rows[i]@)
}

/// No row ranks before an earlier one.
pub open spec fn ranked<R: View, O: Ranking<R>>(ranking: O, rows: Seq<R::V>) -> bool {
    forall|i: int, j: int|
        #![trigger rows[i], rows[j]]
        0 <= i < j < rows.len() ==> !ranking.before(rows[j], rows[i])
}

/// Whether no two rows share a key.
pub open spec fn distinct_keys<R: Row>(rows: Seq<R::V>) -> bool {
    forall|i: int, j: int|
        #![trigger rows[i], rows[j]]
        0 <= i < j < rows.len() ==> R::key_of(rows[i]) != R::key_of(rows[j])
}

/// Position `i` holds the row with key `key`.
pub open spec fn keyed_at<R: Row>(rows: Seq<R::V>, key: <R::Key as View>::V, i: int) -> bool {
    0 <= i < rows.len() && R::key_of(rows[i]) == key
}

/// The rows as a map from key to row.
pub open spec fn by_key<R: Row>(rows: Seq<R::V>) -> Map<<R::Key as View>::V, R::V> {
    Map::new(
        |key: <R::Key as View>::V| exists|i: int| keyed_at::<R>(rows, key, i),
        |key: <R::Key as View>::V| rows[choose|i: int| keyed_at::<R>(rows, key, i)],
    )
}

/// The table holds no more rows than can be counted.
pub open spec fn countable<R: Row>(table: Map<<R::Key as View>::V, R::V>) -> bool {
    table.dom().finite() && table.dom().len() <= usize::MAX
}

/// `listed` holds the rows of `table` that satisfy `condition`, ranked, at most `limit` of them:
/// whatever is left out does not rank before anything listed.
pub open spec fn is_listing<R: Row, C: Condition<R>, O: Ranking<R>>(
    table: Map<<R::Key as View>::V, R::V>,
    condition: C,
    ranking: O,
    limit: nat,
    listed: Seq<R::V>,
) -> bool {
    &&& listed.len() <= limit
    &&& distinct_keys::<R>(listed)
    &&& forall|i: int| #![trigger listed[i]] 0 <= i < listed.len() ==> row_selected::<R, C>(table, condition, listed[i])
    &&& ranked::<R, O>(ranking, listed)
    &&& forall|row: R::V| #[trigger] row_selected::<R, C>(table, condition, row) ==> {
        ||| listed.contains(row)
        ||| listed.len() == limit && forall|i: int|
            #![trigger listed[i]]
            0 <= i < listed.len() ==> !ranking.before(row, listed[i])
    }
}

/// `listed` holds all rows of `table` that satisfy `condition`, ranked.
pub open spec fn is_full_listing<R: Row, C: Condition<R>, O: Ranking<R>>(
    table: Map<<R::Key as View>::V, R::V>,
    condition: C,
    ranking: O,
    listed: Seq<R::V>,
) -> bool {
    &&& distinct_keys::<R>(listed)
    &&& forall|i: int| #![trigger listed[i]] 0 <= i < listed.len() ==> row_selected::<R, C>(table, condition, listed[i])
    &&& ranked::<R, O>(ranking, listed)
    &&& forall|row: R::V| #[trigger] row_selected::<R, C>(table, condition, row) ==> listed.contains(row)
}

/// `row` is a row of `table` and satisfies `condition`.
pub open spec fn row_selected<R: Row, C: Condition<R>>(
    table: Map<<R::Key as View>::V, R::V>,
    condition: C,
    row: R::V,
) -> bool {
    &&& table.contains_key(R::key_of(row))
    &&& table[R::key_of(row)] == row
    &&& condition.holds(row)
}

/// The rows of `table` that satisfy `condition`.
pub open spec fn selected<R: Row, C: Condition<R>>(
    table: Map<<R::Key as View>::V, R::V>,
    condition: C,
) -> Map<<R::Key as View>::V, R::V> {
    Map::new(
        |key: <R::Key as View>::V| table.contains_key(key) && condition.holds(table[key]),
        |key: <R::Key as View>::V| table[key],
    )
}

/// The rows of `table` that do not satisfy `condition`.
pub open spec fn rejected<R: Row, C: Condition<R>>(
    table: Map<<R::Key as View>::V, R::V>,
    condition: C,
) -> Map<<R::Key as View>::V, R::V> {
    Map::new(
        |key: <R::Key as View>::V| table.contains_key(key) && !condition.holds(table[key]),
        |key: <R::Key as View>::V| table[key],
    )
}

/// A collection of rows with distinct keys.
pub struct Table<R: Row> {
    rows: Vec<R>,
}

impl<R: Row> View for Table<R> {
    type V = Map<<R::Key as View>::V, R::V>;

    closed spec fn view(&self) -> Map<<R::Key as View>::V, R::V> {
        by_key::<R>(self.rows())
    }
}

proof fn lemma_by_key_at<R: Row>(rows: Seq<R::V>, i: int)
    requires
        distinct_keys::<R>(rows),
        0 <= i < rows.len(),
    ensures
        by_key::<R>(rows).contains_key(R::key_of(rows[i])),
        by_key::<R>(rows)[R::key_of(rows[i])] == rows[i],
{
    let key = R::key_of(rows[i]);
    assert(keyed_at::<R>(rows, key, i));
    let j = choose|j: int| keyed_at::<R>(rows, key, j);
    assert(keyed_at::<R>(rows, key, j));
    if i < j {
        assert(R::key_of(rows[i]) != R::key_of(rows[j]));
    } else if j < i {
        assert(R::key_of(rows[j]) != R::key_of(rows[i]));
    }
}

/// Position at which a stored key is found.
proof fn lemma_by_key_position<R: Row>(rows: Seq<R::V>, key: <R::Key as View>::V) -> (i: int)
    requires
        by_key::<R>(rows).contains_key(key),
    ensures
        keyed_at::<R>(rows, key, i),
        by_key::<R>(rows)[key] == rows[i],
{
    choose|i: int| keyed_at::<R>(rows, key, i)
}

/// Two sequences of rows with distinct keys and the same members make the same map.
proof fn lemma_by_key_is<R: Row>(rows: Seq<R::V>, table: Map<<R::Key as View>::V, R::V>)
    requires
        distinct_keys::<R>(rows),
        forall|i: int| #![trigger rows[i]] 0 <= i < rows.len() ==> table.contains_key(R::key_of(rows[i])) && table[R::key_of(rows[i])] == rows[i],
        forall|key: <R::Key as View>::V| #[trigger] table.contains_key(key) ==> exists|i: int| keyed_at::<R>(rows, key, i),
    ensures
        by_key::<R>(rows) == table,
{
    assert forall|key: <R::Key as View>::V| by_key::<R>(rows).contains_key(key) implies table.contains_key(key) && table[key] == by_key::<R>(rows)[key] by {
        let i = lemma_by_key_position::<R>(rows, key);
        assert(table.contains_key(R::key_of(rows[i])));
    }
    assert forall|key: <R::Key as View>::V| table.contains_key(key) implies by_key::<R>(rows).contains_key(key) by {
    }
    assert(by_key::<R>(rows) =~= table);
}

/// Insert `row` behind every listed row that it does not rank before.
fn insert_ranked<R: View, O: Ranking<R>>(listed: &mut Vec<R>, row: R, ranking: &O) -> (p: usize)
    requires
        ranked::<R, O>(*ranking, views(old(listed)@)),
    ensures
        ranked::<R, O>(*ranking, views(final(listed)@)),
        p <= old(listed)@.len(),
        views(final(listed)@) == views(old(listed)@).insert(p as int, row@),
{
    let ghost before = views(listed@);
    let ghost value = row@;
    let mut p: usize = 0;
    while p < listed.len() && !ranking.is_before(&row, &listed[p])
        invariant
            p <= listed@.len(),
            row@ == value,
            before == views(listed@),
            forall|a: int| #![trigger before[a]] 0 <= a < p ==> !ranking.before(value, before[a]),
        decreases listed@.len() - p,
    {
        assert(before[p as int] == listed@[p as int]@);
        p += 1;
    }
    proof {
        if p < before.len() {
            assert(before[p as int] == listed@[p as int]@);
            ranking.asymmetric(value, before[p as int]);
        }
    }
    listed.insert(p, row);
    proof {
        let after = views(listed@);
        assert(after =~= before.insert(p as int, value));
        assert forall|i: int, j: int| #![trigger after[i], after[j]] 0 <= i < j < after.len() implies !ranking.before(after[j], after[i]) by {
            if i == p {
                assert(after[j] == before[j - 1]);
                if j - 1 > p {
                    assert(!ranking.before(before[j - 1], before[p as int]));
                    ranking.negatively_transitive(value, before[p as int], before[j - 1]);
                }
            } else if j == p {
                assert(after[i] == before[i]);
            } else {
                let c = if i < p { i } else { i - 1 };
                let d = if j < p { j } else { j - 1 };
                assert(after[i] == before[c] && after[j] == before[d]);
            }
        }
    }
    p
}

impl<R: Row> Table<R> {
    /// The stored rows, in storage order.
    pub closed spec fn rows(&self) -> Seq<R::V> {
        views(self.rows@)
    }

    #[verifier::type_invariant]
    spec fn inv(self) -> bool {
        distinct_keys::<R>(views(self.rows@))
    }

    pub fn new() -> (table: Self)
        ensures
            table@ == Map::<<R::Key as View>::V, R::V>::empty(),
    {
        let table = Table { rows: Vec::new() };
        assert(table@ =~= Map::<<R::Key as View>::V, R::V>::empty());
        table
    }

    fn position(&self, key: &R::Key) -> (found: Option<usize>)
        ensures
            match found {
                Some(i) => {
                    &&& i < self.rows@.len()
                    &&& R::key_of(self.rows()[i as int]) == key@
                    &&& self@.contains_key(key@)
                    &&& self@[key@] == self.rows()[i as int]
                },
                None => !self@.contains_key(key@),
            },
    {
        proof {
            use_type_invariant(self);
        }
        let mut i: usize = 0;
        while i < self.rows.len()
            invariant
                distinct_keys::<R>(self.rows()),
                i <= self.rows@.len(),
                forall|j: int| 0 <= j < i ==> R::key_of(#[trigger] self.rows()[j]) != key@,
            decreases self.rows@.len() - i,
        {
            assert(self.rows()[i as int] == self.rows@[i as int]@);
            if self.rows[i].has_key(key) {
                proof {
                    lemma_by_key_at::<R>(self.rows(), i as int);
                }
                return Some(i);
            }
            i += 1;
        }
        proof {
            if self@.contains_key(key@) {
                let j = lemma_by_key_position::<R>(self.rows(), key@);
                assert(R::key_of(self.rows()[j]) != key@);
            }
        }
        None
    }

    /// The row stored under `key`.
    pub fn get(&self, key: &R::Key) -> (found: Option<&R>)
        ensures
            match found {
                Some(row) => self@.contains_key(key@) && row@ == self@[key@] && R::key_of(row@) == key@,
                None => !self@.contains_key(key@),
            },
    {
        match self.position(key) {
            Some(i) => {
                assert(self.rows()[i as int] == self.rows@[i as int]@);
                Some(&self.rows[i])
            },
            None => None,
        }
    }

    pub fn contains(&self, key: &R::Key) -> (found: bool)
        ensures
            found == self@.contains_key(key@),
    {
        self.position(key).is_some()
    }

    /// Position of the row whose key is that of `row`.
    fn occupied_by(&self, row: &R) -> (found: Option<usize>)
        ensures
            match found {
                Some(i) => i < self.rows@.len() && R::key_of(self.rows()[i as int]) == R::key_of(row@),
                None => forall|j: int| 0 <= j < self.rows@.len() ==> R::key_of(#[trigger] self.rows()[j]) != R::key_of(row@),
            },
    {
        let mut i: usize = 0;
        while i < self.rows.len()
            invariant
                i <= self.rows@.len(),
                forall|j: int| 0 <= j < i ==> R::key_of(#[trigger] self.rows()[j]) != R::key_of(row@),
            decreases self.rows@.len() - i,
        {
            assert(self.rows()[i as int] == self.rows@[i as int]@);
            if self.rows[i].same_key(row) {
                return Some(i);
            }
            i += 1;
        }
        None
    }

    /// Store `row`, replacing the row with the same key.
    pub fn put(&mut self, row: R)
        ensures
            final(self)@ == old(self)@.insert(R::key_of(row@), row@),
    {
        proof {
            use_type_invariant(&*self);
        }
        let ghost before = self.rows();
        let ghost value = row@;
        let ghost slot: int = before.len() as int;
        let found = self.occupied_by(&row);
        let mut rows: Vec<R> = Vec::new();
        std::mem::swap(&mut rows, &mut self.rows);
        match found {
            Some(i) => {
                proof {
                    slot = i as int;
                }
                rows.set(i, row);
                assert(views(rows@) =~= before.update(slot, value));
            },
            None => {
                rows.push(row);
                assert(views(rows@) =~= before.push(value));
            },
        }
        proof {
            let after = views(rows@);
            let table = by_key::<R>(before).insert(R::key_of(value), value);
            assert forall|j: int| #![trigger after[j]] 0 <= j < after.len() implies table.contains_key(R::key_of(after[j])) && table[R::key_of(after[j])] == after[j] by {
                if j != slot {
                    assert(after[j] == before[j]);
                    lemma_by_key_at::<R>(before, j);
                }
            }
            assert forall|key: <R::Key as View>::V| #[trigger] table.contains_key(key) implies exists|j: int| keyed_at::<R>(after, key, j) by {
                if key == R::key_of(value) {
                    assert(keyed_at::<R>(after, key, slot));
                } else {
                    let j = lemma_by_key_position::<R>(before, key);
                    assert(keyed_at::<R>(after, key, j));
                }
            }
            assert(distinct_keys::<R>(after));
            lemma_by_key_is::<R>(after, table);
        }
        self.rows = rows;
    }

    /// Remove the row stored under `key`.
    pub fn remove(&mut self, key: &R::Key) -> (removed: Option<R>)
        ensures
            final(self)@ == old(self)@.remove(key@),
            match removed {
                Some(row) => old(self)@.contains_key(key@) && row@ == old(self)@[key@],
                None => !old(self)@.contains_key(key@),
            },
    {
        proof {
            use_type_invariant(&*self);
        }
        let ghost before = self.rows();
        match self.position(key) {
            Some(i) => {
                assert(before[i as int] == self.rows@[i as int]@);
                let mut rows: Vec<R> = Vec::new();
                std::mem::swap(&mut rows, &mut self.rows);
                let row = rows.remove(i);
                proof {
                    let after = views(rows@);
                    assert(after =~= before.remove(i as int));
                    let table = by_key::<R>(before).remove(key@);
                    assert forall|j: int| #![trigger after[j]] 0 <= j < after.len() implies table.contains_key(R::key_of(after[j])) && table[R::key_of(after[j])] == after[j] by {
                        let k = if j < i { j } else { j + 1 };
                        assert(after[j] == before[k]);
                        lemma_by_key_at::<R>(before, k);
                        assert(before[i as int] == before[i as int]);
                    }
                    assert forall|k: <R::Key as View>::V| #[trigger] table.contains_key(k) implies exists|j: int| keyed_at::<R>(after, k, j) by {
                        let j = lemma_by_key_position::<R>(before, k);
                        assert(keyed_at::<R>(after, k, if j < i { j } else { j - 1 }));
                    }
                    assert forall|a: int, b: int| #![trigger after[a], after[b]] 0 <= a < b < after.len() implies R::key_of(after[a]) != R::key_of(after[b]) by {
                        let x = before[if a < i { a } else { a + 1 }];
                        let y = before[if b < i { b } else { b + 1 }];
                        assert(after[a] == x && after[b] == y);
                    }
                    lemma_by_key_is::<R>(after, table);
                }
                self.rows = rows;
                Some(row)
            },
            None => {
                assert(self@.remove(key@) =~= self@);
                None
            },
        }
    }

    /// The rows that satisfy `condition`, ranked.
    pub fn select_all<C: Condition<R>, O: Ranking<R>>(&self, condition: &C, ranking: &O) -> (listed: Vec<R>)
        ensures
            is_full_listing::<R, C, O>(self@, *condition, *ranking, views(listed@)),
    {
        proof {
            use_type_invariant(self);
        }
        let mut listed: Vec<R> = Vec::new();
        let ghost all = self.rows();
        let mut i: usize = 0;
        while i < self.rows.len()
            invariant
                distinct_keys::<R>(self.rows()),
                all == self.rows(),
                i <= all.len(),
                all.len() == self.rows@.len(),
                distinct_keys::<R>(views(listed@)),
                ranked::<R, O>(*ranking, views(listed@)),
                forall|a: int| #![trigger views(listed@)[a]] 0 <= a < listed@.len() ==> condition.holds(views(listed@)[a]) && all.take(i as int).contains(views(listed@)[a]),
                forall|k: int| #![trigger all[k]] 0 <= k < i && condition.holds(all[k]) ==> views(listed@).contains(all[k]),
            decreases all.len() - i,
        {
            let ghost so_far = views(listed@);
            assert(all[i as int] == self.rows@[i as int]@);
            if condition.test(&self.rows[i]) {
                let row = self.rows[i].duplicate();
                let p = insert_ranked(&mut listed, row, ranking);
                proof {
                    let now = views(listed@);
                    assert(now[p as int] == all[i as int]);
                    assert forall|a: int| #![trigger now[a]] 0 <= a < now.len() implies condition.holds(now[a]) && all.take(i + 1).contains(now[a]) by {
                        if a == p {
                            assert(all.take(i + 1)[i as int] == now[a]);
                        } else {
                            let b = if a < p { a } else { a - 1 };
                            assert(now[a] == so_far[b]);
                            let k = choose|k: int| 0 <= k < all.take(i as int).len() && all.take(i as int)[k] == so_far[b];
                            assert(all.take(i + 1)[k] == so_far[b]);
                        }
                    }
                    assert forall|a: int, b: int| #![trigger now[a], now[b]] 0 <= a < b < now.len() implies R::key_of(now[a]) != R::key_of(now[b]) by {
                        let c = if a < p { a } else { a - 1 };
                        let d = if b < p { b } else { b - 1 };
                        if a == p {
                            let k = choose|k: int| 0 <= k < all.take(i as int).len() && all.take(i as int)[k] == so_far[d];
                            assert(all.take(i as int).contains(so_far[d]));
                            assert(all[k] == now[b] && all[i as int] == now[a]);
                        } else if b == p {
                            let k = choose|k: int| 0 <= k < all.take(i as int).len() && all.take(i as int)[k] == so_far[c];
                            assert(all.take(i as int).contains(so_far[c]));
                            assert(all[k] == now[a] && all[i as int] == now[b]);
                        } else {
                            assert(now[a] == so_far[c] && now[b] == so_far[d]);
                        }
                    }
                    assert forall|k: int| #![trigger all[k]] 0 <= k < i + 1 && condition.holds(all[k]) implies now.contains(all[k]) by {
                        if k < i {
                            let a = choose|a: int| 0 <= a < so_far.len() && so_far[a] == all[k];
                            assert(so_far.contains(all[k]));
                            assert(now[if a < p { a } else { a + 1 }] == all[k]);
                        }
                    }
                }
            } else {
                proof {
                    assert forall|a: int| #![trigger so_far[a]] 0 <= a < so_far.len() implies all.take(i + 1).contains(so_far[a]) by {
                        let k = choose|k: int| 0 <= k < all.take(i as int).len() && all.take(i as int)[k] == so_far[a];
                        assert(all.take(i as int).contains(so_far[a]));
                        assert(all.take(i + 1)[k] == so_far[a]);
                    }
                }
            }
            i += 1;
        }
        proof {
            assert(all.take(all.len() as int) =~= all);
            lemma_rows(*self);
            let full = views(listed@);
            assert forall|a: int| #![trigger full[a]] 0 <= a < full.len() implies row_selected::<R, C>(self@, *condition, full[a]) by {
                assert(all.contains(full[a]));
            }
            assert forall|row: R::V| #[trigger] row_selected::<R, C>(self@, *condition, row) implies full.contains(row) by {
                let k = choose|k: int| keyed_at::<R>(all, R::key_of(row), k) && all[k] == row;
                assert(full.contains(all[k]));
            }
        }
        listed
    }

    /// The rows that satisfy `condition`, ranked, at most `limit` of them.
    pub fn select<C: Condition<R>, O: Ranking<R>>(&self, condition: &C, ranking: &O, limit: usize) -> (listed: Vec<R>)
        ensures
            is_listing::<R, C, O>(self@, *condition, *ranking, limit as nat, views(listed@)),
    {
        let mut listed = self.select_all(condition, ranking);
        let ghost full = views(listed@);
        if limit < listed.len() {
            listed.truncate(limit);
        }
        proof {
            let kept = views(listed@);
            assert forall|a: int| #![trigger kept[a]] 0 <= a < kept.len() implies row_selected::<R, C>(self@, *condition, kept[a]) && kept[a] == full[a] by {
                assert(kept[a] == full[a]);
            }
            assert forall|row: R::V| #[trigger] row_selected::<R, C>(self@, *condition, row) implies kept.contains(row) || kept.len() == limit && forall|a: int| #![trigger kept[a]] 0 <= a < kept.len() ==> !ranking.before(row, kept[a]) by {
                assert(full.contains(row));
                let b = choose|b: int| 0 <= b < full.len() && full[b] == row;
                if b < kept.len() {
                    assert(kept[b] == row);
                } else {
                    assert forall|a: int| #![trigger kept[a]] 0 <= a < kept.len() implies !ranking.before(row, kept[a]) by {
                        assert(kept[a] == full[a] && full[b] == row);
                    }
                }
            }
        }
        listed
    }

    /// Remove every row that satisfies `condition`, and say how many there were.
    pub fn remove_where<C: Condition<R>>(&mut self, condition: &C) -> (removed: usize)
        ensures
            final(self)@ == rejected::<R, C>(old(self)@, *condition),
            removed == selected::<R, C>(old(self)@, *condition).dom().len(),
            selected::<R, C>(old(self)@, *condition).dom().finite(),
    {
        proof {
            use_type_invariant(&*self);
        }
        let ghost start = *self;
        let ghost before = self.rows();
        proof {
            lemma_rows(*self);
        }
        let mut kept: Vec<R> = Vec::new();
        let mut removed: usize = 0;
        let mut i: usize = 0;
        let ghost mut gone: Set<<R::Key as View>::V> = Set::empty();
        while i < self.rows.len()
            invariant
                before == self.rows(),
                before == start.rows(),
                before.len() == self.rows@.len(),
                distinct_keys::<R>(before),
                i <= before.len(),
                removed <= i,
                gone.finite(),
                gone.len() == removed,
                forall|key: <R::Key as View>::V| #[trigger] gone.contains(key) <==> exists|k: int| keyed_at::<R>(before.take(i as int), key, k) && condition.holds(before[k]),
                distinct_keys::<R>(views(kept@)),
                forall|a: int| #![trigger views(kept@)[a]] 0 <= a < kept@.len() ==> !condition.holds(views(kept@)[a]) && before.take(i as int).contains(views(kept@)[a]),
                forall|k: int| #![trigger before[k]] 0 <= k < i && !condition.holds(before[k]) ==> views(kept@).contains(before[k]),
            decreases before.len() - i,
        {
            let ghost so_far = views(kept@);
            let ghost earlier = before.take(i as int);
            let ghost later = before.take(i + 1);
            assert(before[i as int] == self.rows@[i as int]@);
            proof {
                assert(later =~= earlier.push(before[i as int]));
                assert forall|a: int| #![trigger so_far[a]] 0 <= a < so_far.len() implies later.contains(so_far[a]) && R::key_of(so_far[a]) != R::key_of(before[i as int]) by {
                    let k = choose|k: int| 0 <= k < earlier.len() && earlier[k] == so_far[a];
                    assert(earlier.contains(so_far[a]));
                    assert(later[k] == so_far[a]);
                    assert(before[k] == so_far[a]);
                }
            }
            if condition.test(&self.rows[i]) {
                removed += 1;
                proof {
                    let key = R::key_of(before[i as int]);
                    assert(!gone.contains(key)) by {
                        if gone.contains(key) {
                            let k = choose|k: int| keyed_at::<R>(earlier, key, k) && condition.holds(before[k]);
                            assert(before[k] == earlier[k]);
                        }
                    }
                    let next = gone.insert(key);
                    assert forall|q: <R::Key as View>::V| #[trigger] next.contains(q) <==> exists|k: int| keyed_at::<R>(later, q, k) && condition.holds(before[k]) by {
                        if q == key {
                            assert(keyed_at::<R>(later, q, i as int));
                        } else if gone.contains(q) {
                            let k = choose|k: int| keyed_at::<R>(earlier, q, k) && condition.holds(before[k]);
                            assert(keyed_at::<R>(later, q, k));
                        } else if exists|k: int| keyed_at::<R>(later, q, k) && condition.holds(before[k]) {
                            let k = choose|k: int| keyed_at::<R>(later, q, k) && condition.holds(before[k]);
                            assert(keyed_at::<R>(earlier, q, k));
                        }
                    }
                    gone = next;
                }
            } else {
                let row = self.rows[i].duplicate();
                kept.push(row);
                proof {
                    let now = views(kept@);
                    assert(now =~= so_far.push(before[i as int]));
                    assert(later[i as int] == before[i as int]);
                    assert forall|k: int| #![trigger before[k]] 0 <= k < i + 1 && !condition.holds(before[k]) implies now.contains(before[k]) by {
                        if k < i {
                            let a = choose|a: int| 0 <= a < so_far.len() && so_far[a] == before[k];
                            assert(now[a] == before[k]);
                        } else {
                            assert(now[so_far.len() as int] == before[k]);
                        }
                    }
                    assert forall|q: <R::Key as View>::V| #[trigger] gone.contains(q) <==> exists|k: int| keyed_at::<R>(later, q, k) && condition.holds(before[k]) by {
                        if gone.contains(q) {
                            let k = choose|k: int| keyed_at::<R>(earlier, q, k) && condition.holds(before[k]);
                            assert(keyed_at::<R>(later, q, k));
                        } else if exists|k: int| keyed_at::<R>(later, q, k) && condition.holds(before[k]) {
                            let k = choose|k: int| keyed_at::<R>(later, q, k) && condition.holds(before[k]);
                            assert(keyed_at::<R>(earlier, q, k));
                        }
                    }
                }
            }
            i += 1;
        }
        proof {
            assert(before.take(before.len() as int) =~= before);
            let after = views(kept@);
            let table = rejected::<R, C>(start@, *condition);
            assert forall|j: int| #![trigger after[j]] 0 <= j < after.len() implies table.contains_key(R::key_of(after[j])) && table[R::key_of(after[j])] == after[j] by {
                assert(before.contains(after[j]));
            }
            assert forall|key: <R::Key as View>::V| #[trigger] table.contains_key(key) implies exists|j: int| keyed_at::<R>(after, key, j) by {
                let k = lemma_by_key_position::<R>(before, key);
                assert(after.contains(before[k]));
                let j = choose|j: int| 0 <= j < after.len() && after[j] == before[k];
                assert(keyed_at::<R>(after, key, j));
            }
            lemma_by_key_is::<R>(after, table);
            let chosen = selected::<R, C>(start@, *condition).dom();
            assert forall|key: <R::Key as View>::V| gone.contains(key) <==> chosen.contains(key) by {
                if gone.contains(key) {
                    let k = choose|k: int| keyed_at::<R>(before, key, k) && condition.holds(before[k]);
                    assert(start@[R::key_of(before[k])] == before[k]);
                } else if chosen.contains(key) {
                    let k = lemma_by_key_position::<R>(before, key);
                }
            }
            assert(gone =~= chosen);
        }
        self.rows = kept;
        removed
    }

    /// A table with the same rows.
    pub fn copy(&self) -> (copy: Self)
        ensures
            copy@ == self@,
    {
        proof {
            use_type_invariant(self);
        }
        let mut rows: Vec<R> = Vec::new();
        let ghost all = self.rows();
        let mut i: usize = 0;
        while i < self.rows.len()
            invariant
                i <= self.rows@.len(),
                all == views(self.rows@),
                rows@.len() == i,
                forall|k: int| 0 <= k < i ==> (#[trigger] rows@[k])@ == all[k],
            decreases self.rows@.len() - i,
        {
            let row = self.rows[i].duplicate();
            assert(all[i as int] == self.rows@[i as int]@);
            rows.push(row);
            i += 1;
        }
        assert(views(rows@) =~= all);
        Table { rows }
    }

    /// How many rows satisfy `condition`.
    pub fn count<C: Condition<R>>(&self, condition: &C) -> (count: usize)
        ensures
            count == selected::<R, C>(self@, *condition).dom().len(),
            selected::<R, C>(self@, *condition).dom().finite(),
    {
        let mut copy = self.copy();
        copy.remove_where(condition)
    }

    /// Replace every row by its changed version.
    pub fn rewrite<F: Change<R>>(&mut self, change: &F)
        ensures
            final(self)@ == old(self)@.map_values(|row: R::V| change.changed(row)),
    {
        proof {
            use_type_invariant(&*self);
        }
        let ghost start = *self;
        let ghost before = self.rows();
        proof {
            lemma_rows(*self);
        }
        let mut after: Vec<R> = Vec::new();
        let mut i: usize = 0;
        while i < self.rows.len()
            invariant
                before == self.rows(),
                before.len() == self.rows@.len(),
                i <= before.len(),
                after@.len() == i,
                forall|k: int| #![trigger views(after@)[k]] 0 <= k < i ==> views(after@)[k] == change.changed(before[k]),
            decreases before.len() - i,
        {
            assert(before[i as int] == self.rows@[i as int]@);
            let ghost so_far = views(after@);
            let row = change.apply(&self.rows[i]);
            after.push(row);
            assert(views(after@) =~= so_far.push(row@));
            i += 1;
        }
        proof {
            let now = views(after@);
            let table = start@.map_values(|row: R::V| change.changed(row));
            assert forall|j: int| #![trigger now[j]] 0 <= j < now.len() implies table.contains_key(R::key_of(now[j])) && table[R::key_of(now[j])] == now[j] by {
                change.keeps_key(before[j]);
                lemma_by_key_at::<R>(before, j);
            }
            assert forall|key: <R::Key as View>::V| #[trigger] table.contains_key(key) implies exists|j: int| keyed_at::<R>(now, key, j) by {
                let j = lemma_by_key_position::<R>(before, key);
                change.keeps_key(before[j]);
                assert(now[j] == change.changed(before[j]));
                assert(keyed_at::<R>(now, key, j));
            }
            assert forall|a: int, b: int| #![trigger now[a], now[b]] 0 <= a < b < now.len() implies R::key_of(now[a]) != R::key_of(now[b]) by {
                change.keeps_key(before[a]);
                change.keeps_key(before[b]);
            }
            lemma_by_key_is::<R>(now, table);
        }
        self.rows = after;
    }

    pub fn len(&self) -> (count: usize)
        ensures
            count == self.rows().len(),
            distinct_keys::<R>(self.rows()),
    {
        proof {
            use_type_invariant(self);
        }
        self.rows.len()
    }

    /// The `i`-th stored row.
    pub fn at(&self, i: usize) -> (row: &R)
        requires
            i < self.rows().len(),
        ensures
            row@ == self.rows()[i as int],
    {
        &self.rows[i]
    }
}

/// Every row is found under its own key.
pub proof fn lemma_keyed<R: Row>(table: Table<R>)
    ensures
        forall|key: <R::Key as View>::V| #[trigger] table@.contains_key(key) ==> R::key_of(table@[key]) == key,
{
    assert forall|key: <R::Key as View>::V| #[trigger] table@.contains_key(key) implies R::key_of(table@[key]) == key by {
        let i = lemma_by_key_position::<R>(table.rows(), key);
    }
}

/// The stored rows are those of the map, each once.
pub proof fn lemma_rows<R: Row>(table: Table<R>)
    requires
        distinct_keys::<R>(table.rows()),
    ensures
        table@ == by_key::<R>(table.rows()),
        distinct_keys::<R>(table.rows()),
        forall|i: int| #![trigger table.rows()[i]] 0 <= i < table.rows().len() ==> table@.contains_key(R::key_of(table.rows()[i])) && table@[R::key_of(table.rows()[i])] == table.rows()[i],
        forall|key: <R::Key as View>::V| #[trigger] table@.contains_key(key) ==> {
            &&& R::key_of(table@[key]) == key
            &&& exists|i: int| #[trigger] keyed_at::<R>(table.rows(), key, i) && table.rows()[i] == table@[key]
        },
{
    assert forall|i: int| #![trigger table.rows()[i]] 0 <= i < table.rows().len() implies table@.contains_key(R::key_of(table.rows()[i])) && table@[R::key_of(table.rows()[i])] == table.rows()[i] by {
        lemma_by_key_at::<R>(table.rows(), i);
    }
    assert forall|key: <R::Key as View>::V| #[trigger] table@.contains_key(key) implies R::key_of(table@[key]) == key && exists|i: int| #[trigger] keyed_at::<R>(table.rows(), key, i) && table.rows()[i] == table@[key] by {
        let i = lemma_by_key_position::<R>(table.rows(), key);
        assert(keyed_at::<R>(table.rows(), key, i));
    }
}

/// A table holds no more rows than can be counted.
pub proof fn lemma_countable<R: Row>(table: Table<R>)
    ensures
        countable::<R>(table@),
{
    let rows = table.rows();
    let keys = rows.map_values(|row: R::V| R::key_of(row));
    assert(table.rows.len() == table.rows@.len());
    vstd::seq_lib::seq_to_set_is_finite(keys);
    keys.lemma_cardinality_of_set();
    assert(table@.dom().subset_of(keys.to_set())) by {
        assert forall|key: <R::Key as View>::V| #[trigger] table@.dom().contains(key) implies keys.to_set().contains(key) by {
            let i = lemma_by_key_position::<R>(rows, key);
            assert(keys[i] == key);
        }
    }
    vstd::set_lib::lemma_len_subset(table@.dom(), keys.to_set());
}

/// As many different rows of a table as it holds are all of them.
pub proof fn lemma_covers<R: Row>(table: Map<<R::Key as View>::V, R::V>, listed: Seq<R::V>, row: R::V)
    requires
        countable::<R>(table),
        distinct_keys::<R>(listed),
        forall|i: int| #![trigger listed[i]] 0 <= i < listed.len() ==> table.contains_key(R::key_of(listed[i])) && table[R::key_of(listed[i])] == listed[i],
        listed.len() >= table.dom().len(),
        table.contains_key(R::key_of(row)),
        table[R::key_of(row)] == row,
    ensures
        listed.contains(row),
{
    let keys = listed.map_values(|row: R::V| R::key_of(row));
    assert(keys.no_duplicates()) by {
        assert forall|i: int, j: int| 0 <= i < keys.len() && 0 <= j < keys.len() && i != j implies keys[i] != keys[j] by {
            assert(keys[i] == R::key_of(listed[i]) && keys[j] == R::key_of(listed[j]));
            if i < j {
                assert(R::key_of(listed[i]) != R::key_of(listed[j]));
            } else {
                assert(R::key_of(listed[j]) != R::key_of(listed[i]));
            }
        }
    }
    keys.unique_seq_to_set();
    assert(keys.to_set().subset_of(table.dom())) by {
        assert forall|key: <R::Key as View>::V| #[trigger] keys.to_set().contains(key) implies table.dom().contains(key) by {
            let i = choose|i: int| 0 <= i < keys.len() && keys[i] == key;
            assert(table.contains_key(R::key_of(listed[i])));
        }
    }
    vstd::set_lib::lemma_len_subset(keys.to_set(), table.dom());
    vstd::set_lib::lemma_subset_equality(keys.to_set(), table.dom());
    assert(keys.to_set().contains(R::key_of(row)));
    let i = choose|i: int| 0 <= i < keys.len() && keys[i] == R::key_of(row);
    assert(listed[i] == row);
}

} // verus!
