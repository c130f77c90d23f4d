//! The retired table of models.

use super::db::{bare, Db, StoreError};
use vstd::prelude::*;

verus! {

/// The table's name.
pub const MODEL_CATALOG: &'static str = "model_catalog";

/// Drop the table. Whether it was there.
pub fn drop_table(db: &mut Db) -> (dropped: Result<bool, StoreError>)
    ensures
        dropped matches Ok(dropped) ==> dropped == old(db).tables().contains(MODEL_CATALOG@),
        final(db).lacks_table(*old(db), MODEL_CATALOG@) || dropped is Err && final(db).same_as(
            *old(db),
        ),
        bare(dropped),
{
    proof {
        reveal_strlit("model_catalog");
    }
    db.drop_table(MODEL_CATALOG)
}

} // verus!
