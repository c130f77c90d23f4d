//! Rows whose bytes were read into values, where they could be.

use crate::order::TextMap;
use vstd::prelude::*;

verus! {

/// The values of the rows that could be read, in their order.
pub open spec fn decoded<T>(rows: Seq<Option<T>>) -> Seq<T>
    decreases rows.len(),
{
    if rows.len() == 0 {
        Seq::empty()
    } else {
        match rows.last() {
            Some(value) => decoded(rows.drop_last()).push(value),
            None => decoded(rows.drop_last()),
        }
    }
}

/// The values of the rows that could be read, by their keys.
pub open spec fn decoded_map<T>(rows: Seq<(String, Option<T>)>) -> Map<Seq<char>, T>
    decreases rows.len(),
{
    if rows.len() == 0 {
        Map::empty()
    } else {
        match rows.last().1 {
            Some(value) => decoded_map(rows.drop_last()).insert(rows.last().0@, value),
            None => decoded_map(rows.drop_last()),
        }
    }
}

/// Keep the rows that could be read. One that could not does not hide the
/// rest.
pub fn keep_decoded<T>(rows: Vec<Option<T>>) -> (kept: Vec<T>)
    ensures
        kept@ == decoded(rows@),
{
    let ghost before = rows@;
    let ghost mut done: int = 0;
    let mut rows = rows;
    let mut kept: Vec<T> = Vec::new();
    proof {
        assert(before.skip(0) =~= before);
        assert(before.take(0) =~= Seq::empty());
    }
    while rows.len() > 0
        invariant
            0 <= done <= before.len(),
            rows@ == before.skip(done),
            kept@ == decoded(before.take(done)),
        decreases rows.len(),
    {
        let row = rows.remove(0);
        proof {
            assert(before.take(done + 1).drop_last() =~= before.take(done));
            assert(before.take(done + 1).last() == before[done]);
            assert(before.skip(done).remove(0) =~= before.skip(done + 1));
            done = done + 1;
        }
        match row {
            Some(value) => kept.push(value),
            None => {},
        }
    }
    proof {
        assert(before.take(done) =~= before);
    }
    kept
}

/// Keep the rows that could be read, by their keys.
pub fn keep_decoded_by_key<T>(rows: Vec<(String, Option<T>)>) -> (kept: TextMap<T>)
    ensures
        kept.wf(),
        kept@ == decoded_map(rows@),
{
    let ghost before = rows@;
    let ghost mut done: int = 0;
    let mut rows = rows;
    let mut kept: TextMap<T> = TextMap::new();
    proof {
        assert(before.skip(0) =~= before);
        assert(before.take(0) =~= Seq::empty());
    }
    while rows.len() > 0
        invariant
            0 <= done <= before.len(),
            rows@ == before.skip(done),
            kept.wf(),
            kept@ == decoded_map(before.take(done)),
        decreases rows.len(),
    {
        let row = rows.remove(0);
        proof {
            assert(before.take(done + 1).drop_last() =~= before.take(done));
            assert(before.take(done + 1).last() == before[done]);
            assert(before.skip(done).remove(0) =~= before.skip(done + 1));
            done = done + 1;
        }
        match row.1 {
            Some(value) => kept.insert(row.0, value),
            None => {},
        }
    }
    proof {
        assert(before.take(done) =~= before);
    }
    kept
}

/// A row that cannot be read is left out, and every other stays.
pub proof fn unreadable_row_hides_no_other<T>(front: Seq<Option<T>>, back: Seq<Option<T>>)
    ensures
        decoded(front + seq![None] + back) == decoded(front + back),
    decreases back.len(),
{
    let with = front + seq![None] + back;
    let without = front + back;
    if back.len() == 0 {
        assert(with.drop_last() =~= front);
        assert(without =~= front);
    } else {
        unreadable_row_hides_no_other(front, back.drop_last());
        assert(with.drop_last() =~= front + seq![None] + back.drop_last());
        assert(without.drop_last() =~= front + back.drop_last());
    }
}

/// Every row that can be read is among the decoded ones, and nothing else is.
pub proof fn every_readable_row_is_decoded<T>(rows: Seq<Option<T>>, i: int)
    ensures
        0 <= i < rows.len() ==> (rows[i] matches Some(value) ==> decoded(rows).contains(value)),
        0 <= i < decoded(rows).len() ==> rows.contains(Some(decoded(rows)[i])),
        decoded(rows).len() <= rows.len(),
    decreases rows.len(),
{
    if rows.len() > 0 {
        let rest = rows.drop_last();
        every_readable_row_is_decoded(rest, i);
        let n = rows.len() - 1;
        if 0 <= i < n && rows[i] is Some {
            assert(rest[i] == rows[i]);
            let k = choose|k: int| 0 <= k < decoded(rest).len() && decoded(rest)[k] == rows[i]->0;
            assert(decoded(rows)[k] == rows[i]->0);
        }
        if i == n && rows[i] is Some {
            assert(decoded(rows)[decoded(rest).len() as int] == rows[i]->0);
        }
        if 0 <= i < decoded(rows).len() {
            if i < decoded(rest).len() {
                let k = choose|k: int| 0 <= k < rest.len() && rest[k] == Some(decoded(rest)[i]);
                assert(rows[k] == Some(decoded(rows)[i]));
            } else {
                assert(rows[n] == Some(decoded(rows)[i]));
            }
        }
    }
}

/// The decoded rows keep their order.
pub proof fn decoded_rows_keep_their_order<T>(front: Seq<Option<T>>, back: Seq<Option<T>>)
    ensures
        decoded(front + back) == decoded(front) + decoded(back),
    decreases back.len(),
{
    if back.len() == 0 {
        assert(front + back =~= front);
        assert(decoded(front) + decoded(back) =~= decoded(front));
    } else {
        decoded_rows_keep_their_order(front, back.drop_last());
        assert((front + back).drop_last() =~= front + back.drop_last());
        assert((front + back).last() == back.last());
        assert(decoded(front + back) =~= decoded(front) + decoded(back));
    }
}

/// A key is decoded exactly where a row of it can be read, to what the last
/// such row holds.
pub proof fn the_last_readable_row_of_a_key_counts<T>(rows: Seq<(String, Option<T>)>, i: int)
    ensures
        0 <= i < rows.len() && rows[i].1 is Some ==> decoded_map(rows).dom().contains(rows[i].0@),
        0 <= i < rows.len() && rows[i].1 is Some && (forall|j: int|
            i < j < rows.len() && (#[trigger] rows[j]).0@ == rows[i].0@ ==> rows[j].1 is None)
            ==> decoded_map(rows)[rows[i].0@] == rows[i].1->0,
        forall|key: Seq<char>| #[trigger]
            decoded_map(rows).dom().contains(key) ==> exists|j: int|
                0 <= j < rows.len() && (#[trigger] rows[j]).0@ == key && rows[j].1 is Some,
    decreases rows.len(),
{
    if rows.len() > 0 {
        let rest = rows.drop_last();
        the_last_readable_row_of_a_key_counts(rest, i);
        let n = rows.len() - 1;
        assert forall|key: Seq<char>| #[trigger]
            decoded_map(rows).dom().contains(key) implies exists|j: int|
            0 <= j < rows.len() && (#[trigger] rows[j]).0@ == key && rows[j].1 is Some by {
            if decoded_map(rest).dom().contains(key) {
                let j = choose|j: int|
                    0 <= j < rest.len() && (#[trigger] rest[j]).0@ == key && rest[j].1 is Some;
                assert(rows[j] == rest[j]);
            } else {
                assert(rows[n].0@ == key);
            }
        }
        if 0 <= i < n && rows[i].1 is Some {
            assert(rest[i] == rows[i]);
            if forall|j: int|
                i < j < rows.len() && (#[trigger] rows[j]).0@ == rows[i].0@ ==> rows[j].1 is None {
                assert forall|j: int|
                    i < j < rest.len() && (#[trigger] rest[j]).0@
                        == rest[i].0@ implies rest[j].1 is None by {
                    assert(rows[j] == rest[j]);
                }
                assert(rows[n].0@ == rows[i].0@ ==> rows[n].1 is None);
            }
        }
    }
}

} // verus!
