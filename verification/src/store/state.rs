//! The spinner that was chosen, and the usage of each account as it was last
//! seen.

use super::db::{
    are_rows1, bare, key1, lemma_with_one, lemma_without_one, lemma_written_elsewhere,
    outside_table1, with_written, Db, StoreError,
};
use vstd::prelude::*;

verus! {

/// The name of the table of settings.
pub const SETTINGS: &'static str = "settings";

/// The key of the chosen spinner.
pub const SPINNER: &'static str = "spinner";

/// The name of the table of accounts' usage.
pub const ACCOUNT_USAGE: &'static str = "account_usage";

/// The bytes of the chosen spinner, where one was chosen.
pub fn spinner(db: &Db) -> (row: Result<Option<Vec<u8>>, StoreError>)
    ensures
        row matches Ok(Some(value)) ==> db.rows().dom().contains(key1(SETTINGS@, SPINNER@))
            && db.rows()[key1(SETTINGS@, SPINNER@)] == value@,
        row matches Ok(None) ==> !db.rows().dom().contains(key1(SETTINGS@, SPINNER@)),
        bare(row),
{
    proof {
        reveal_strlit("settings");
    }
    db.get1(SETTINGS, SPINNER)
}

/// The chosen spinner, by what its row was decoded to where there is one. One
/// that does not decode counts as not chosen.
pub fn read_spinner<T>(row: Option<Option<T>>) -> (style: Option<T>)
    ensures
        style == (match row {
            Some(read) => read,
            None => None,
        }),
{
    match row {
        Some(read) => read,
        None => None,
    }
}

/// Choose a spinner, or none.
pub fn set_spinner(db: &mut Db, spinner: Option<Vec<u8>>) -> (done: Result<(), StoreError>)
    ensures
        final(db).has_texts(
            *old(db),
            SETTINGS@,
            match spinner {
                Some(encoded) => old(db).rows().insert(key1(SETTINGS@, SPINNER@), encoded@),
                None => old(db).rows().remove(key1(SETTINGS@, SPINNER@)),
            },
        ) || done is Err && final(db).same_as(*old(db)),
        bare(done),
{
    proof {
        reveal_strlit("settings");
    }
    match spinner {
        Some(encoded) => {
            let mut rows: Vec<(String, Vec<u8>)> = Vec::new();
            rows.push((SPINNER.to_owned(), encoded));
            proof {
                lemma_with_one(db.rows(), SETTINGS@, rows@[0]);
                assert(rows@ =~= seq![rows@[0]]);
            }
            db.put1(SETTINGS, &rows)
        },
        None => {
            let mut keys: Vec<String> = Vec::new();
            keys.push(SPINNER.to_owned());
            proof {
                lemma_without_one(db.rows(), SETTINGS@, keys@[0]);
                assert(keys@ =~= seq![keys@[0]]);
            }
            db.remove1(SETTINGS, &keys)
        },
    }
}

/// Every account's row, in the order of the names.
pub fn account_usage(db: &Db) -> (rows: Result<Vec<(String, Vec<u8>)>, StoreError>)
    ensures
        rows matches Ok(rows) ==> are_rows1(rows@, db.rows(), ACCOUNT_USAGE@),
        bare(rows),
{
    proof {
        reveal_strlit("account_usage");
    }
    db.list1(ACCOUNT_USAGE)
}

/// Let these be all the accounts there are.
pub fn replace_account_usage(db: &mut Db, entries: &Vec<(String, Vec<u8>)>) -> (done: Result<
    (),
    StoreError,
>)
    ensures
        final(db).has_texts(
            *old(db),
            ACCOUNT_USAGE@,
            with_written(outside_table1(old(db).rows(), ACCOUNT_USAGE@), ACCOUNT_USAGE@, entries@),
        ) || done is Err && final(db).same_as(*old(db)),
        bare(done),
{
    proof {
        reveal_strlit("account_usage");
    }
    db.replace1(ACCOUNT_USAGE, entries)
}

/// However often the accounts' usage is written, the chosen spinner stays.
pub proof fn usage_leaves_the_spinner(
    before: Map<(Seq<char>, Seq<Seq<char>>), Seq<u8>>,
    entries: Seq<(String, Vec<u8>)>,
)
    ensures
        ({
            let after = with_written(
                outside_table1(before, ACCOUNT_USAGE@),
                ACCOUNT_USAGE@,
                entries,
            );
            let spinner = key1(SETTINGS@, SPINNER@);
            &&& after.dom().contains(spinner) == before.dom().contains(spinner)
            &&& before.dom().contains(spinner) ==> after[spinner] == before[spinner]
        }),
{
    reveal_strlit("settings");
    reveal_strlit("account_usage");
    let spinner = key1(SETTINGS@, SPINNER@);
    assert(SETTINGS@.len() != ACCOUNT_USAGE@.len());
    lemma_written_elsewhere(
        outside_table1(before, ACCOUNT_USAGE@),
        ACCOUNT_USAGE@,
        entries,
        spinner,
    );
}

} // verus!
