//! The stored Gotify subscriptions, one row each under its id.

use super::db::{are_id_rows, bare, Db, StoreError};
use vstd::prelude::*;

verus! {

/// The table's name.
pub const SUBS: &'static str = "subscriptions";

/// Write a subscription's bytes, in place of what stood under its id.
pub fn insert(db: &mut Db, id: &[u8; 16], encoded: &Vec<u8>) -> (done: Result<(), StoreError>)
    ensures
        final(db).has_ids(*old(db), SUBS@, old(db).ids().insert((SUBS@, id@), encoded@))
            || done is Err && final(db).same_as(*old(db)),
        bare(done),
{
    proof {
        reveal_strlit("subscriptions");
    }
    db.put_id(SUBS, id, encoded)
}

/// Every subscription's row, in the order of the ids.
pub fn list(db: &Db) -> (rows: Result<Vec<([u8; 16], Vec<u8>)>, StoreError>)
    ensures
        rows matches Ok(rows) ==> are_id_rows(rows@, db.ids(), SUBS@),
        bare(rows),
{
    proof {
        reveal_strlit("subscriptions");
    }
    db.list_ids(SUBS)
}

/// Remove a subscription. Whether there was one.
pub fn remove(db: &mut Db, id: &[u8; 16]) -> (existed: Result<bool, StoreError>)
    ensures
        existed matches Ok(existed) ==> existed == old(db).ids().dom().contains((SUBS@, id@)),
        final(db).has_ids(*old(db), SUBS@, old(db).ids().remove((SUBS@, id@))) || existed is Err
            && final(db).same_as(*old(db)),
        bare(existed),
{
    proof {
        reveal_strlit("subscriptions");
    }
    db.remove_id(SUBS, id)
}

/// A subscription that was inserted is listed with the bytes it was inserted
/// with.
pub proof fn insert_then_list(
    before: Map<(Seq<char>, Seq<u8>), Seq<u8>>,
    id: Seq<u8>,
    encoded: Seq<u8>,
    listed: Seq<([u8; 16], Vec<u8>)>,
)
    requires
        are_id_rows(listed, before.insert((SUBS@, id), encoded), SUBS@),
    ensures
        exists|i: int|
            0 <= i < listed.len() && (#[trigger] listed[i]).0@ == id && listed[i].1@ == encoded,
{
    let after = before.insert((SUBS@, id), encoded);
    assert(after.dom().contains((SUBS@, id)));
    let i = choose|i: int| 0 <= i < listed.len() && (#[trigger] listed[i]).0@ == id;
    assert(after[(SUBS@, listed[i].0@)] == listed[i].1@);
}

/// A subscription that was removed is not listed, and every other still is.
pub proof fn remove_then_list(
    before: Map<(Seq<char>, Seq<u8>), Seq<u8>>,
    id: Seq<u8>,
    other: Seq<u8>,
    listed: Seq<([u8; 16], Vec<u8>)>,
)
    requires
        are_id_rows(listed, before.remove((SUBS@, id)), SUBS@),
    ensures
        forall|i: int| 0 <= i < listed.len() ==> (#[trigger] listed[i]).0@ != id,
        other != id && before.dom().contains((SUBS@, other)) ==> exists|i: int|
            0 <= i < listed.len() && (#[trigger] listed[i]).0@ == other && listed[i].1@
                == before[(SUBS@, other)],
{
    let after = before.remove((SUBS@, id));
    assert forall|i: int| 0 <= i < listed.len() implies (#[trigger] listed[i]).0@ != id by {
        assert(after.dom().contains((SUBS@, listed[i].0@)));
    }
    if other != id && before.dom().contains((SUBS@, other)) {
        assert(after.dom().contains((SUBS@, other)));
        let i = choose|i: int| 0 <= i < listed.len() && (#[trigger] listed[i]).0@ == other;
        assert(after[(SUBS@, listed[i].0@)] == listed[i].1@);
    }
}

} // verus!
