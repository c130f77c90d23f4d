//! The remembered plugin updates, one row for each installed entry.

use super::db::{
    are_rows1, bare, key1, lemma_with_written, lemma_without_one, with_written, Db, StoreError,
};
use vstd::prelude::*;

verus! {

/// The table's name.
pub const PLUGIN_UPDATES: &'static str = "plugin_updates";

/// An update of an installed entry, with its bytes.
#[derive(Debug, PartialEq, Eq)]
pub struct EncodedUpdate {
    pub plugin_id: String,
    pub scope: String,
    pub encoded: Vec<u8>,
}

/// The key of an installed entry.
pub open spec fn record_key_of(plugin_id: Seq<char>, scope: Seq<char>) -> Seq<char> {
    plugin_id + "|"@ + scope
}

/// The key of an installed entry: the plugin and the scope it is installed in.
pub fn record_key(plugin_id: &str, scope: &str) -> (key: String)
    ensures
        key@ == record_key_of(plugin_id@, scope@),
{
    let mut key = plugin_id.to_owned();
    key.append("|");
    key.append(scope);
    key
}

/// `rows` are the rows of `records`.
pub open spec fn rows_of_updates(
    rows: Seq<(String, Vec<u8>)>,
    records: Seq<EncodedUpdate>,
) -> bool {
    &&& rows.len() == records.len()
    &&& forall|i: int|
        0 <= i < rows.len() ==> (#[trigger] rows[i]).0@ == record_key_of(
            records[i].plugin_id@,
            records[i].scope@,
        ) && rows[i].1@ == records[i].encoded@
}

/// Remember a batch of updates, all or none, in place of what was remembered
/// of the same entries.
pub fn record_updates(db: &mut Db, records: &Vec<EncodedUpdate>) -> (done: Result<(), StoreError>)
    ensures
        (exists|rows: Seq<(String, Vec<u8>)>| #[trigger]
            rows_of_updates(rows, records@) && final(db).has_texts(
                *old(db),
                PLUGIN_UPDATES@,
                with_written(old(db).rows(), PLUGIN_UPDATES@, rows),
            )) || done is Err && final(db).same_as(*old(db)),
        bare(done),
{
    let mut rows: Vec<(String, Vec<u8>)> = Vec::new();
    for i in 0..records.len()
        invariant
            rows@.len() == i,
            forall|j: int|
                0 <= j < i ==> (#[trigger] rows@[j]).0@ == record_key_of(
                    records@[j].plugin_id@,
                    records@[j].scope@,
                ) && rows@[j].1@ == records@[j].encoded@,
    {
        let bytes = records[i].encoded.clone();
        assert(bytes@ =~= records@[i as int].encoded@);
        rows.push(
            (record_key(records[i].plugin_id.as_str(), records[i].scope.as_str()), bytes),
        );
    }
    proof {
        reveal_strlit("plugin_updates");
        assert(rows_of_updates(rows@, records@));
    }
    db.put1(PLUGIN_UPDATES, &rows)
}

/// Every remembered update's row, in the order of the keys.
pub fn update_records(db: &Db) -> (rows: Result<Vec<(String, Vec<u8>)>, StoreError>)
    ensures
        rows matches Ok(rows) ==> are_rows1(rows@, db.rows(), PLUGIN_UPDATES@),
        bare(rows),
{
    proof {
        reveal_strlit("plugin_updates");
    }
    db.list1(PLUGIN_UPDATES)
}

/// Forget the update of an installed entry.
pub fn clear_update_record(db: &mut Db, plugin_id: &str, scope: &str) -> (done: Result<
    (),
    StoreError,
>)
    ensures
        final(db).has_texts(
            *old(db),
            PLUGIN_UPDATES@,
            old(db).rows().remove(key1(PLUGIN_UPDATES@, record_key_of(plugin_id@, scope@))),
        ) || done is Err && final(db).same_as(*old(db)),
        bare(done),
{
    let key = record_key(plugin_id, scope);
    let mut keys: Vec<String> = Vec::new();
    keys.push(key);
    proof {
        reveal_strlit("plugin_updates");
        lemma_without_one(db.rows(), PLUGIN_UPDATES@, keys@[0]);
        assert(keys@ =~= seq![keys@[0]]);
    }
    db.remove1(PLUGIN_UPDATES, &keys)
}

/// Two entries of one plugin, in different scopes, have different keys.
pub proof fn scopes_are_kept_apart(plugin_id: Seq<char>, scope: Seq<char>, other: Seq<char>)
    requires
        record_key_of(plugin_id, scope) == record_key_of(plugin_id, other),
    ensures
        scope == other,
{
    let n = (plugin_id + "|"@).len() as int;
    assert(scope =~= record_key_of(plugin_id, scope).skip(n));
    assert(other =~= record_key_of(plugin_id, other).skip(n));
}

/// The updates of one batch, of different entries, are all remembered.
pub proof fn recorded_is_remembered(
    before: Map<(Seq<char>, Seq<Seq<char>>), Seq<u8>>,
    records: Seq<EncodedUpdate>,
    rows: Seq<(String, Vec<u8>)>,
    listed: Seq<(String, Vec<u8>)>,
    i: int,
)
    requires
        rows_of_updates(rows, records),
        forall|i: int, j: int|
            0 <= i < j < rows.len() ==> (#[trigger] rows[i]).0@ != (#[trigger] rows[j]).0@,
        are_rows1(listed, with_written(before, PLUGIN_UPDATES@, rows), PLUGIN_UPDATES@),
        0 <= i < records.len(),
    ensures
        exists|j: int|
            0 <= j < listed.len() && (#[trigger] listed[j]).0@ == record_key_of(
                records[i].plugin_id@,
                records[i].scope@,
            ) && listed[j].1@ == records[i].encoded@,
{
    let after = with_written(before, PLUGIN_UPDATES@, rows);
    lemma_with_written(before, PLUGIN_UPDATES@, rows);
    assert(after.dom().contains(key1(PLUGIN_UPDATES@, rows[i].0@)));
    let j = choose|j: int| 0 <= j < listed.len() && (#[trigger] listed[j]).0@ == rows[i].0@;
    assert(after[key1(PLUGIN_UPDATES@, listed[j].0@)] == listed[j].1@);
}

/// An update that was forgotten is not remembered.
pub proof fn cleared_is_forgotten(
    before: Map<(Seq<char>, Seq<Seq<char>>), Seq<u8>>,
    plugin_id: Seq<char>,
    scope: Seq<char>,
    listed: Seq<(String, Vec<u8>)>,
    i: int,
)
    requires
        are_rows1(
            listed,
            before.remove(key1(PLUGIN_UPDATES@, record_key_of(plugin_id, scope))),
            PLUGIN_UPDATES@,
        ),
        0 <= i < listed.len(),
    ensures
        listed[i].0@ != record_key_of(plugin_id, scope),
{
    assert(before.remove(key1(PLUGIN_UPDATES@, record_key_of(plugin_id, scope))).dom().contains(
        key1(PLUGIN_UPDATES@, listed[i].0@),
    ));
}

/// The key of a plugin's record is the plugin's id, a bar and the scope.
pub proof fn a_record_is_keyed_by_plugin_and_scope(plugin_id: Seq<char>, scope: Seq<char>)
    ensures
        ({
            let n = plugin_id.len() as int;
            let key = record_key_of(plugin_id, scope);
            &&& key.len() == n + 1 + scope.len()
            &&& key.take(n) == plugin_id
            &&& key[n] == '|'
            &&& key.skip(n + 1) == scope
        }),
{
    reveal_strlit("|");
    let n = plugin_id.len() as int;
    let key = record_key_of(plugin_id, scope);
    assert(key.take(n) =~= plugin_id);
    assert(key.skip(n + 1) =~= scope);
}

} // verus!
