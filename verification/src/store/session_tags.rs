//! What was found when a transcript was scanned for its tag, one row for each
//! transcript under its path.

use super::db::{
    are_rows1, bare, key1, lemma_without_keys, with_written, without_keys, Db, StoreError,
};
use vstd::prelude::*;

verus! {

/// The table's name.
pub const SESSION_TAGS: &'static str = "session_tags";

/// Every scan's row, in the order of the paths.
pub fn load_all(db: &Db) -> (rows: Result<Vec<(String, Vec<u8>)>, StoreError>)
    ensures
        rows matches Ok(rows) ==> are_rows1(rows@, db.rows(), SESSION_TAGS@),
        bare(rows),
{
    proof {
        reveal_strlit("session_tags");
    }
    db.list1(SESSION_TAGS)
}

/// Write the scans that moved, all or none. With none the database is not
/// touched.
pub fn store_all(db: &mut Db, scans: &Vec<(String, Vec<u8>)>) -> (done: Result<(), StoreError>)
    ensures
        scans@.len() == 0 ==> done is Ok && *final(db) == *old(db),
        scans@.len() > 0 ==> final(db).has_texts(
            *old(db),
            SESSION_TAGS@,
            with_written(old(db).rows(), SESSION_TAGS@, scans@),
        ) || done is Err && final(db).same_as(*old(db)),
        bare(done),
{
    if scans.len() == 0 {
        return Ok(());
    }
    proof {
        reveal_strlit("session_tags");
    }
    db.put1(SESSION_TAGS, scans)
}

/// The paths of the scans whose transcript is gone.
pub open spec fn gone(scans: Seq<(String, bool)>) -> Seq<String>
    decreases scans.len(),
{
    if scans.len() == 0 {
        Seq::empty()
    } else if scans.last().1 {
        gone(scans.drop_last())
    } else {
        gone(scans.drop_last()).push(scans.last().0)
    }
}

/// Remove the rows of transcripts that are gone, all or none. Each scan that
/// could be read comes with whether its transcript is still there. The answer
/// is how many rows went; with none gone the database is not touched.
pub fn prune_missing(db: &mut Db, scans: &Vec<(String, bool)>) -> (pruned: Result<
    usize,
    StoreError,
>)
    ensures
        gone(scans@).len() == 0 ==> pruned is Ok && *final(db) == *old(db),
        pruned matches Ok(n) ==> n == gone(scans@).len(),
        gone(scans@).len() > 0 ==> final(db).has_texts(
            *old(db),
            SESSION_TAGS@,
            without_keys(old(db).rows(), SESSION_TAGS@, gone(scans@)),
        ) || pruned is Err && final(db).same_as(*old(db)),
        bare(pruned),
{
    let mut paths: Vec<String> = Vec::new();
    proof {
        assert(scans@.take(0) =~= Seq::empty());
    }
    for i in 0..scans.len()
        invariant
            paths@ == gone(scans@.take(i as int)),
    {
        proof {
            assert(scans@.take(i + 1).drop_last() =~= scans@.take(i as int));
            assert(scans@.take(i + 1).last() == scans@[i as int]);
        }
        if !scans[i].1 {
            paths.push(scans[i].0.clone());
        }
    }
    proof {
        assert(scans@.take(scans@.len() as int) =~= scans@);
        reveal_strlit("session_tags");
    }
    if paths.len() == 0 {
        return Ok(0);
    }
    match db.remove1(SESSION_TAGS, &paths) {
        Ok(()) => Ok(paths.len()),
        Err(error) => Err(error),
    }
}

/// A path is among those that are gone just where some scan says so.
proof fn lemma_gone(scans: Seq<(String, bool)>, path: Seq<char>)
    ensures
        (exists|i: int| 0 <= i < gone(scans).len() && (#[trigger] gone(scans)[i])@ == path) <==> (
        exists|i: int| 0 <= i < scans.len() && (#[trigger] scans[i]).0@ == path && !scans[i].1),
    decreases scans.len(),
{
    if scans.len() > 0 {
        let fewer = scans.drop_last();
        let last = scans.last();
        lemma_gone(fewer, path);
        if exists|i: int| 0 <= i < gone(scans).len() && (#[trigger] gone(scans)[i])@ == path {
            let i = choose|i: int|
                0 <= i < gone(scans).len() && (#[trigger] gone(scans)[i])@ == path;
            if i < gone(fewer).len() {
                assert(gone(fewer)[i]@ == path);
                let j = choose|j: int|
                    0 <= j < fewer.len() && (#[trigger] fewer[j]).0@ == path && !fewer[j].1;
                assert(scans[j] == fewer[j]);
            } else {
                assert(scans[scans.len() - 1] == last);
            }
        }
        if exists|i: int| 0 <= i < scans.len() && (#[trigger] scans[i]).0@ == path && !scans[i].1 {
            let i = choose|i: int|
                0 <= i < scans.len() && (#[trigger] scans[i]).0@ == path && !scans[i].1;
            if i < fewer.len() {
                assert(fewer[i] == scans[i]);
                let j = choose|j: int|
                    0 <= j < gone(fewer).len() && (#[trigger] gone(fewer)[j])@ == path;
                assert(gone(scans)[j]@ == path);
            } else {
                assert(gone(scans)[gone(fewer).len() as int]@ == path);
            }
        }
    }
}

/// Pruning takes the scans of transcripts that are gone, and no others.
pub proof fn pruning_spares_what_is_there(
    before: Map<(Seq<char>, Seq<Seq<char>>), Seq<u8>>,
    scans: Seq<(String, bool)>,
    path: Seq<char>,
)
    ensures
        ({
            let after = without_keys(before, SESSION_TAGS@, gone(scans));
            let at = key1(SESSION_TAGS@, path);
            let went = exists|i: int|
                0 <= i < scans.len() && (#[trigger] scans[i]).0@ == path && !scans[i].1;
            &&& after.dom().contains(at) == (before.dom().contains(at) && !went)
            &&& after.dom().contains(at) ==> after[at] == before[at]
        }),
{
    let at = key1(SESSION_TAGS@, path);
    let keys = gone(scans);
    lemma_without_keys(before, SESSION_TAGS@, keys);
    lemma_gone(scans, path);
    assert((exists|i: int| 0 <= i < keys.len() && at == key1(SESSION_TAGS@, (#[trigger] keys[i])@))
        <==> (exists|i: int| 0 <= i < keys.len() && (#[trigger] keys[i])@ == path)) by {
        if exists|i: int| 0 <= i < keys.len() && at == key1(SESSION_TAGS@, (#[trigger] keys[i])@) {
            let i = choose|i: int|
                0 <= i < keys.len() && at == key1(SESSION_TAGS@, (#[trigger] keys[i])@);
            assert(at.1[0] == key1(SESSION_TAGS@, keys[i]@).1[0]);
            assert(keys[i]@ == path);
        }
    }
}

} // verus!
