//! Ranking the rows of called functions.
//!
//! Rows are put in order of falling key. Rows of equal key stay in the order in
//! which they came.

use crate::row::rows_of_items;
use crate::row::Item;
use crate::row::Row;
use vstd::prelude::*;
use vstd::seq_lib::to_multiset_insert;

verus! {

/// How many rows at the front of `rows` have a key above `key`.
pub open spec fn slot(key: u64, rows: Seq<Row>) -> nat
    decreases rows.len(),
{
    if rows.len() == 0 || rows[0].key <= key {
        0
    } else {
        1 + slot(key, rows.drop_first())
    }
}

/// `rows` with `row` put in behind the rows at the front whose key is above its own.
pub open spec fn place(row: Row, rows: Seq<Row>) -> Seq<Row> {
    rows.insert(slot(row.key, rows) as int, row)
}

/// `rows` in order of falling key, rows of equal key in the order they have in
/// `rows`.
pub open spec fn ranked(rows: Seq<Row>) -> Seq<Row>
    decreases rows.len(),
{
    if rows.len() == 0 {
        rows
    } else {
        place(rows[0], ranked(rows.drop_first()))
    }
}

/// The rows as they are displayed: the first row stays first, and the rows behind it
/// are ranked where there are more than three rows in all.
pub open spec fn arranged(rows: Seq<Row>) -> Seq<Row> {
    if rows.len() > 3 {
        seq![rows[0]] + ranked(rows.skip(1))
    } else {
        rows
    }
}

/// No key rises from one row to a later one.
pub open spec fn falling(rows: Seq<Row>) -> bool {
    forall|i: int, j: int| 0 <= i <= j < rows.len() ==> rows[i].key >= rows[j].key
}

/// The rows of `rows` whose key is `key`, in order.
pub open spec fn with_key(rows: Seq<Row>, key: u64) -> Seq<Row> {
    rows.filter(|row: Row| row.key == key)
}

/// Finds where a row of key `key` goes among ranked rows.
pub fn find_slot(items: &Vec<Item>, key: u64) -> (at: usize)
    ensures
        at == slot(key, rows_of_items(items@)),
        at <= items.len(),
{
    let ghost rows = rows_of_items(items@);
    let mut at: usize = 0;
    assert(rows.skip(0) =~= rows);
    while at < items.len() && items[at].key > key
        invariant
            at <= items.len(),
            rows == rows_of_items(items@),
            slot(key, rows) == at + slot(key, rows.skip(at as int)),
        decreases items.len() - at,
    {
        proof {
            let rest = rows.skip(at as int);
            assert(rest[0] == items@[at as int]@);
            assert(rest.drop_first() =~= rows.skip(at + 1));
        }
        at = at + 1;
    }
    proof {
        let rest = rows.skip(at as int);
        if at < items.len() {
            assert(rest[0] == items@[at as int]@);
        }
    }
    at
}

/// Ranks items by falling key. Items of equal key keep their order.
pub fn rank(items: Vec<Item>) -> (out: Vec<Item>)
    ensures
        rows_of_items(out@) == ranked(rows_of_items(items@)),
{
    let ghost rows = rows_of_items(items@);
    let mut rest = items;
    let mut out: Vec<Item> = Vec::new();
    proof {
        assert(rows.skip(rows.len() as int) =~= Seq::<Row>::empty());
        assert(rows_of_items(out@) =~= Seq::<Row>::empty());
    }
    while rest.len() > 0
        invariant
            rest.len() <= rows.len(),
            rows_of_items(rest@) == rows.take(rest.len() as int),
            rows_of_items(out@) == ranked(rows.skip(rest.len() as int)),
        decreases rest.len(),
    {
        let ghost before = rest@;
        let ghost done = rows_of_items(out@);
        let item = rest.pop().unwrap();
        let at = find_slot(&out, item.key);
        proof {
            let tail = rows.skip(rest.len() as int);
            assert(rows_of_items(before)[rest.len() as int] == item@);
            assert(tail[0] == item@);
            assert(tail.drop_first() =~= rows.skip(before.len() as int));
            assert(rows_of_items(rest@) =~= rows.take(rest.len() as int));
        }
        let ghost row = item@;
        out.insert(at, item);
        proof {
            assert(rows_of_items(out@) =~= done.insert(at as int, row));
        }
    }
    assert(rows.skip(0) =~= rows);
    out
}

/// Puts rows in the order in which they are displayed.
pub fn arrange(items: Vec<Item>) -> (out: Vec<Item>)
    ensures
        rows_of_items(out@) == arranged(rows_of_items(items@)),
{
    if items.len() > 3 {
        let ghost rows = rows_of_items(items@);
        let mut out = items;
        let tail = out.split_off(1);
        let mut tail = rank(tail);
        proof {
            assert(rows_of_items(out@) =~= seq![rows[0]]);
            assert(rows_of_items(items@.subrange(1, items@.len() as int)) =~= rows.skip(1));
        }
        let ghost head = out@;
        let ghost behind = tail@;
        out.append(&mut tail);
        proof {
            assert(rows_of_items(out@) =~= rows_of_items(head) + rows_of_items(behind));
        }
        out
    } else {
        items
    }
}

/// The rows in front of the slot have keys above `key`, and the row at the slot, if
/// there is one, does not.
proof fn lemma_slot(key: u64, rows: Seq<Row>)
    ensures
        slot(key, rows) <= rows.len(),
        forall|i: int| 0 <= i < slot(key, rows) ==> (#[trigger] rows[i]).key > key,
        slot(key, rows) < rows.len() ==> rows[slot(key, rows) as int].key <= key,
    decreases rows.len(),
{
    if rows.len() > 0 && rows[0].key > key {
        let rest = rows.drop_first();
        lemma_slot(key, rest);
        assert forall|i: int| 0 <= i < slot(key, rows) implies (#[trigger] rows[i]).key > key by {
            if i > 0 {
                assert(rows[i] == rest[i - 1]);
            }
        }
        if slot(key, rows) < rows.len() {
            assert(rows[slot(key, rows) as int] == rest[slot(key, rest) as int]);
        }
    }
}

/// Putting a row into ranked rows leaves them ranked.
proof fn lemma_place_falling(row: Row, rows: Seq<Row>)
    requires
        falling(rows),
    ensures
        falling(place(row, rows)),
        place(row, rows).len() == rows.len() + 1,
{
    lemma_slot(row.key, rows);
    let at = slot(row.key, rows) as int;
    let out = place(row, rows);
    assert forall|i: int, j: int| 0 <= i <= j < out.len() implies out[i].key >= out[j].key by {
        let a = if i < at {
            rows[i]
        } else if i == at {
            row
        } else {
            rows[i - 1]
        };
        let b = if j < at {
            rows[j]
        } else if j == at {
            row
        } else {
            rows[j - 1]
        };
        assert(out[i] == a);
        assert(out[j] == b);
        if i == at && j > at {
            assert(rows[at].key >= rows[j - 1].key);
        }
    }
}

/// Among the rows of one key, a row that is put in comes first if the key is its
/// own, and is absent otherwise.
proof fn lemma_place_with_key(row: Row, rows: Seq<Row>, key: u64)
    ensures
        with_key(place(row, rows), key) == (if row.key == key {
            seq![row]
        } else {
            Seq::<Row>::empty()
        }) + with_key(rows, key),
{
    lemma_slot(row.key, rows);
    let at = slot(row.key, rows) as int;
    let front = rows.take(at);
    let back = rows.skip(at);
    let has_key = |r: Row| r.key == key;
    assert(rows =~= front + back);
    assert(place(row, rows) =~= front + (seq![row] + back));
    Seq::filter_distributes_over_add(front, back, has_key);
    Seq::filter_distributes_over_add(front, seq![row] + back, has_key);
    back.lemma_filter_prepend(row, has_key);
    if row.key == key {
        assert(front.all(|r: Row| !has_key(r)));
        front.lemma_all_neg_filter_empty(has_key);
        assert(front.filter(has_key) =~= Seq::<Row>::empty());
    }
    assert(with_key(place(row, rows), key) =~= (if row.key == key {
        seq![row]
    } else {
        Seq::<Row>::empty()
    }) + with_key(rows, key));
}

/// Ranked rows are as many as were given, and no key rises from one of them to a
/// later one.
pub proof fn lemma_ranked_falling(rows: Seq<Row>)
    ensures
        falling(ranked(rows)),
        ranked(rows).len() == rows.len(),
    decreases rows.len(),
{
    if rows.len() > 0 {
        lemma_ranked_falling(rows.drop_first());
        lemma_place_falling(rows[0], ranked(rows.drop_first()));
    }
}

/// Ranking keeps ties in order: the rows of any one key stand in the ranked rows as
/// they stand in the rows that were given.
pub proof fn lemma_ranked_keeps_ties(rows: Seq<Row>, key: u64)
    ensures
        with_key(ranked(rows), key) == with_key(rows, key),
    decreases rows.len(),
{
    if rows.len() > 0 {
        let rest = rows.drop_first();
        lemma_ranked_keeps_ties(rest, key);
        lemma_place_with_key(rows[0], ranked(rest), key);
        rest.lemma_filter_prepend(rows[0], |r: Row| r.key == key);
        assert(rows =~= seq![rows[0]] + rest);
    }
}

/// Ranking neither adds nor loses a row.
pub proof fn lemma_ranked_same_rows(rows: Seq<Row>)
    ensures
        ranked(rows).to_multiset() == rows.to_multiset(),
    decreases rows.len(),
{
    if rows.len() > 0 {
        let rest = rows.drop_first();
        lemma_ranked_same_rows(rest);
        lemma_ranked_falling(rest);
        lemma_slot(rows[0].key, ranked(rest));
        to_multiset_insert(ranked(rest), slot(rows[0].key, ranked(rest)) as int, rows[0]);
        to_multiset_insert(rest, 0, rows[0]);
        assert(rows =~= rest.insert(0, rows[0]));
    }
}

/// Two lists of rows in which no key rises, and which hold the same rows in the same
/// order under every key, are one list.
pub proof fn lemma_falling_unique(a: Seq<Row>, b: Seq<Row>)
    requires
        falling(a),
        falling(b),
        forall|key: u64| with_key(a, key) == with_key(b, key),
    ensures
        a == b,
    decreases a.len() + b.len(),
{
    if a.len() == 0 && b.len() == 0 {
        assert(a =~= b);
    } else {
        // The last row of the one list has the least key of it, and the other list
        // holds a row of that key, so the least keys agree.
        let low_a = if a.len() > 0 {
            a.last().key
        } else {
            b.last().key
        };
        lemma_with_key_of_last(a);
        lemma_with_key_of_last(b);
        lemma_with_key_holds(a, low_a);
        lemma_with_key_holds(b, low_a);
        assert(a.len() > 0 && b.len() > 0);
        let low_b = b.last().key;
        lemma_with_key_holds(a, low_b);
        lemma_with_key_holds(b, low_b);
        assert(low_a == low_b);
        assert(a.last() == b.last());
        let a0 = a.drop_last();
        let b0 = b.drop_last();
        assert forall|key: u64| with_key(a0, key) == with_key(b0, key) by {
            a0.lemma_filter_push(a.last(), |r: Row| r.key == key);
            b0.lemma_filter_push(b.last(), |r: Row| r.key == key);
            assert(a =~= a0.push(a.last()));
            assert(b =~= b0.push(b.last()));
            assert(with_key(a, key) == with_key(b, key));
            if key == low_a {
                assert(with_key(a0, key) =~= with_key(a, key).drop_last());
                assert(with_key(b0, key) =~= with_key(b, key).drop_last());
            }
        }
        assert(falling(a0));
        assert(falling(b0));
        lemma_falling_unique(a0, b0);
        assert(a =~= a0.push(a.last()));
        assert(b =~= b0.push(b.last()));
    }
}

/// The last row of a list is the last of the rows of its key.
proof fn lemma_with_key_of_last(rows: Seq<Row>)
    ensures
        rows.len() > 0 ==> with_key(rows, rows.last().key).len() > 0 && with_key(
            rows,
            rows.last().key,
        ).last() == rows.last(),
{
    if rows.len() > 0 {
        rows.drop_last().lemma_filter_push(rows.last(), |r: Row| r.key == rows.last().key);
        assert(rows =~= rows.drop_last().push(rows.last()));
    }
}

/// Where a list has rows of a key, one of its rows has that key.
proof fn lemma_with_key_holds(rows: Seq<Row>, key: u64)
    ensures
        with_key(rows, key).len() > 0 ==> exists|i: int|
            0 <= i < rows.len() && (#[trigger] rows[i]).key == key,
{
    let has_key = |r: Row| r.key == key;
    if with_key(rows, key).len() > 0 {
        let found = with_key(rows, key)[0];
        rows.lemma_filter_pred(has_key, 0);
        assert(rows.filter(has_key).contains(found));
        rows.lemma_filter_contains_rev(has_key, found);
        let i = choose|i: int| 0 <= i < rows.len() && rows[i] == found;
        assert(rows[i].key == key);
    }
}

/// Ranking is settled by its two properties: a list in which no key rises, and which
/// holds under every key the rows that `rows` holds under it, in the same order, is
/// `rows` ranked.
pub proof fn lemma_ranked_is_the_only_ranking(rows: Seq<Row>, other: Seq<Row>)
    requires
        falling(other),
        forall|key: u64| with_key(other, key) == with_key(rows, key),
    ensures
        other == ranked(rows),
{
    lemma_ranked_falling(rows);
    assert forall|key: u64| with_key(other, key) == with_key(ranked(rows), key) by {
        lemma_ranked_keeps_ties(rows, key);
    }
    lemma_falling_unique(other, ranked(rows));
}

/// What is displayed has the first row first and as many rows as were given. Three
/// rows or fewer are displayed in the order in which they were given.
pub proof fn lemma_arranged_shape(rows: Seq<Row>)
    ensures
        arranged(rows).len() == rows.len(),
        rows.len() > 0 ==> arranged(rows)[0] == rows[0],
        rows.len() <= 3 ==> arranged(rows) == rows,
{
    lemma_ranked_falling(rows.skip(1));
}

} // verus!
