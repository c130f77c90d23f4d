//! The retired table of workers, which the sessions table took over from.

use super::db::{are_rows2, bare, fits_in_key, has_context, key2, refuses_key, Db, StoreError};
use vstd::prelude::*;

verus! {

/// The table's name.
pub const DYNAMIC_WORKERS: &'static str = "dynamic_workers";

/// What a worker is spawned again with, as the retired table held it.
#[derive(Debug, PartialEq, Eq)]
pub struct DynamicWorker {
    pub project_key: String,
    pub label: String,
    pub charter: String,
    pub kick: Option<String>,
    /// What it is told when it resumes, in place of the generic note.
    pub resume_kick: Option<String>,
    /// Whether it was spawned to be talked to.
    pub interactive: bool,
}

/// Every row, in key order: project key, label and bytes.
pub fn list_all(db: &Db) -> (rows: Result<Vec<(String, String, Vec<u8>)>, StoreError>)
    ensures
        rows matches Ok(rows) ==> are_rows2(rows@, db.rows(), DYNAMIC_WORKERS@),
        bare(rows),
{
    proof {
        reveal_strlit("dynamic_workers");
    }
    db.list2(DYNAMIC_WORKERS)
}

/// How many rows there are, whether or not they can be read.
pub fn count(db: &Db) -> (rows: Result<usize, StoreError>)
    ensures
        rows matches Ok(n) ==> exists|listed: Seq<(String, String, Vec<u8>)>| #[trigger]
            are_rows2(listed, db.rows(), DYNAMIC_WORKERS@) && listed.len() == n,
        bare(rows),
{
    match list_all(db) {
        Ok(listed) => {
            assert(are_rows2(listed@, db.rows(), DYNAMIC_WORKERS@));
            Ok(listed.len())
        },
        Err(error) => Err(error),
    }
}

/// Remove a row. Whether there was one.
pub fn delete(db: &mut Db, project_key: &str, label: &str) -> (removed: Result<bool, StoreError>)
    ensures
        removed matches Ok(removed) ==> removed == old(db).rows().dom().contains(
            key2(DYNAMIC_WORKERS@, project_key@, label@),
        ),
        final(db).has_texts(
            *old(db),
            DYNAMIC_WORKERS@,
            old(db).rows().remove(key2(DYNAMIC_WORKERS@, project_key@, label@)),
        ) || removed is Err && final(db).same_as(*old(db)),
        !fits_in_key(project_key@) ==> refuses_key(removed) && *final(db) == *old(db),
        has_context(removed) <==> !fits_in_key(project_key@),
{
    proof {
        reveal_strlit("dynamic_workers");
    }
    db.remove2(DYNAMIC_WORKERS, project_key, label)
}

/// Drop the table. Whether it was there.
pub fn drop_table(db: &mut Db) -> (dropped: Result<bool, StoreError>)
    ensures
        dropped matches Ok(dropped) ==> dropped == old(db).tables().contains(DYNAMIC_WORKERS@),
        final(db).lacks_table(*old(db), DYNAMIC_WORKERS@) || dropped is Err && final(db).same_as(
            *old(db),
        ),
        bare(dropped),
{
    proof {
        reveal_strlit("dynamic_workers");
    }
    db.drop_table(DYNAMIC_WORKERS)
}

} // verus!
