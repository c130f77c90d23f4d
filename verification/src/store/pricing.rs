//! The cached pricing, one row.

use super::db::{bare, key1, lemma_with_one, Db, StoreError};
use crate::protocol::Timestamp;
use vstd::prelude::*;

verus! {

/// The table's name.
pub const PRICING_CACHE: &'static str = "pricing_cache";

/// The key of its one row.
pub const KEY: &'static str = "litellm";

/// A pricing file and when it was fetched.
#[derive(Debug, PartialEq, Eq)]
pub struct CachedPricing {
    pub fetched_at: Timestamp,
    pub json: String,
}

/// The bytes of the cached pricing, where any was fetched.
pub fn load(db: &Db) -> (row: Result<Option<Vec<u8>>, StoreError>)
    ensures
        row matches Ok(Some(value)) ==> db.rows().dom().contains(key1(PRICING_CACHE@, KEY@))
            && db.rows()[key1(PRICING_CACHE@, KEY@)] == value@,
        row matches Ok(None) ==> !db.rows().dom().contains(key1(PRICING_CACHE@, KEY@)),
        bare(row),
{
    proof {
        reveal_strlit("pricing_cache");
    }
    db.get1(PRICING_CACHE, KEY)
}

/// What an error is told under where the cached pricing does not decode.
pub const DECODE_CONTEXT: &'static str = "decode cached pricing";

/// What the row of the cached pricing reads as. Without one nothing was
/// cached; one that does not decode is an error, with what the decoder says.
pub fn read(row: Option<Result<CachedPricing, String>>) -> (cached: Result<
    Option<CachedPricing>,
    StoreError,
>)
    ensures
        match row {
            None => cached == Ok::<Option<CachedPricing>, StoreError>(None),
            Some(Ok(pricing)) => cached == Ok::<Option<CachedPricing>, StoreError>(Some(pricing)),
            Some(Err(message)) => cached matches Err(error) && error.message == message
                && (error.context matches Some(context) && context@ == DECODE_CONTEXT@),
        },
{
    match row {
        None => Ok(None),
        Some(Ok(pricing)) => Ok(Some(pricing)),
        Some(Err(message)) => Err(
            StoreError { context: Some(DECODE_CONTEXT.to_owned()), message },
        ),
    }
}

/// Write the cached pricing, in place of what was cached.
pub fn store(db: &mut Db, encoded: Vec<u8>) -> (done: Result<(), StoreError>)
    ensures
        final(db).has_texts(
            *old(db),
            PRICING_CACHE@,
            old(db).rows().insert(key1(PRICING_CACHE@, KEY@), encoded@),
        ) || done is Err && final(db).same_as(*old(db)),
        bare(done),
{
    let mut rows: Vec<(String, Vec<u8>)> = Vec::new();
    rows.push((KEY.to_owned(), encoded));
    proof {
        reveal_strlit("pricing_cache");
        lemma_with_one(db.rows(), PRICING_CACHE@, rows@[0]);
        assert(rows@ =~= seq![rows@[0]]);
    }
    db.put1(PRICING_CACHE, &rows)
}

/// What was cached last is what is loaded, and no other row has changed.
pub proof fn cached_is_loaded(
    before: Map<(Seq<char>, Seq<Seq<char>>), Seq<u8>>,
    encoded: Seq<u8>,
    other: (Seq<char>, Seq<Seq<char>>),
)
    requires
        other != key1(PRICING_CACHE@, KEY@),
    ensures
        ({
            let after = before.insert(key1(PRICING_CACHE@, KEY@), encoded);
            &&& after.dom().contains(key1(PRICING_CACHE@, KEY@))
            &&& after[key1(PRICING_CACHE@, KEY@)] == encoded
            &&& after.dom().contains(other) == before.dom().contains(other)
            &&& before.dom().contains(other) ==> after[other] == before[other]
        }),
{
}

} // verus!
