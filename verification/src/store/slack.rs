//! The stored Slack subscriptions, one row each under its id, and how far each
//! conversation has been read.

use super::db::{are_id_rows, bare, key1, Db, StoreError};
use crate::order::lemma_same_bytes;
use vstd::prelude::*;
use vstd::utf8::encode_utf8;

verus! {

/// The table's name.
pub const SUBS: &'static str = "slack_subscriptions";

/// Write a subscription's bytes, in place of what stood under its id.
pub fn insert(db: &mut Db, id: &[u8; 16], encoded: &Vec<u8>) -> (done: Result<(), StoreError>)
    ensures
        final(db).has_ids(*old(db), SUBS@, old(db).ids().insert((SUBS@, id@), encoded@))
            || done is Err && final(db).same_as(*old(db)),
        bare(done),
{
    proof {
        reveal_strlit("slack_subscriptions");
    }
    db.put_id(SUBS, id, encoded)
}

/// Every subscription's row, in the order of the ids.
pub fn list(db: &Db) -> (rows: Result<Vec<([u8; 16], Vec<u8>)>, StoreError>)
    ensures
        rows matches Ok(rows) ==> are_id_rows(rows@, db.ids(), SUBS@),
        bare(rows),
{
    proof {
        reveal_strlit("slack_subscriptions");
    }
    db.list_ids(SUBS)
}

/// Remove a subscription. Whether there was one.
pub fn remove(db: &mut Db, id: &[u8; 16]) -> (existed: Result<bool, StoreError>)
    ensures
        existed matches Ok(existed) ==> existed == old(db).ids().dom().contains((SUBS@, id@)),
        final(db).has_ids(*old(db), SUBS@, old(db).ids().remove((SUBS@, id@))) || existed is Err
            && final(db).same_as(*old(db)),
        bare(existed),
{
    proof {
        reveal_strlit("slack_subscriptions");
    }
    db.remove_id(SUBS, id)
}

/// A subscription that was inserted is listed with the bytes it was inserted
/// with.
pub proof fn insert_then_list(
    before: Map<(Seq<char>, Seq<u8>), Seq<u8>>,
    id: Seq<u8>,
    encoded: Seq<u8>,
    listed: Seq<([u8; 16], Vec<u8>)>,
)
    requires
        are_id_rows(listed, before.insert((SUBS@, id), encoded), SUBS@),
    ensures
        exists|i: int|
            0 <= i < listed.len() && (#[trigger] listed[i]).0@ == id && listed[i].1@ == encoded,
{
    let after = before.insert((SUBS@, id), encoded);
    assert(after.dom().contains((SUBS@, id)));
    let i = choose|i: int| 0 <= i < listed.len() && (#[trigger] listed[i]).0@ == id;
    assert(after[(SUBS@, listed[i].0@)] == listed[i].1@);
}

/// A subscription that was removed is not listed, and every other still is.
pub proof fn remove_then_list(
    before: Map<(Seq<char>, Seq<u8>), Seq<u8>>,
    id: Seq<u8>,
    other: Seq<u8>,
    listed: Seq<([u8; 16], Vec<u8>)>,
)
    requires
        are_id_rows(listed, before.remove((SUBS@, id)), SUBS@),
    ensures
        forall|i: int| 0 <= i < listed.len() ==> (#[trigger] listed[i]).0@ != id,
        other != id && before.dom().contains((SUBS@, other)) ==> exists|i: int|
            0 <= i < listed.len() && (#[trigger] listed[i]).0@ == other && listed[i].1@
                == before[(SUBS@, other)],
{
    let after = before.remove((SUBS@, id));
    assert forall|i: int| 0 <= i < listed.len() implies (#[trigger] listed[i]).0@ != id by {
        assert(after.dom().contains((SUBS@, listed[i].0@)));
    }
    if other != id && before.dom().contains((SUBS@, other)) {
        assert(after.dom().contains((SUBS@, other)));
        let i = choose|i: int| 0 <= i < listed.len() && (#[trigger] listed[i]).0@ == other;
        assert(after[(SUBS@, listed[i].0@)] == listed[i].1@);
    }
}

/// The name of the table of watermarks.
pub const WATERMARKS: &'static str = "slack_watermarks";

/// The key of a conversation's watermark.
pub open spec fn watermark_key_of(workspace: Seq<char>, conversation: Seq<char>) -> Seq<char> {
    workspace + seq!['\0'] + conversation
}

/// The key of a conversation's watermark: the workspace and the conversation,
/// with a character between them that neither holds.
pub fn watermark_key(workspace: &str, conversation: &str) -> (key: String)
    ensures
        key@ == watermark_key_of(workspace@, conversation@),
{
    proof {
        reveal_strlit("\0");
        assert("\0"@ =~= seq!['\0']);
    }
    let mut key = workspace.to_owned();
    key.append("\0");
    key.append(conversation);
    key
}

/// The timestamp of the last message that a conversation delivered, where it
/// has been read at all.
pub fn watermark(db: &Db, workspace: &str, conversation: &str) -> (ts: Result<
    Option<String>,
    StoreError,
>)
    ensures
        ts matches Ok(Some(ts)) ==> db.rows().dom().contains(
            key1(WATERMARKS@, watermark_key_of(workspace@, conversation@)),
        ) && db.rows()[key1(WATERMARKS@, watermark_key_of(workspace@, conversation@))]
            == encode_utf8(ts@),
        ts matches Ok(None) ==> !db.rows().dom().contains(
            key1(WATERMARKS@, watermark_key_of(workspace@, conversation@)),
        ),
        bare(ts),
{
    proof {
        reveal_strlit("slack_watermarks");
    }
    let key = watermark_key(workspace, conversation);
    db.get_text(WATERMARKS, key.as_str())
}

/// Record the timestamp of the last message that a conversation delivered, as
/// the text that it came as.
pub fn set_watermark(db: &mut Db, workspace: &str, conversation: &str, ts: &str) -> (done: Result<
    (),
    StoreError,
>)
    ensures
        final(db).has_texts(
            *old(db),
            WATERMARKS@,
            old(db).rows().insert(
                key1(WATERMARKS@, watermark_key_of(workspace@, conversation@)),
                encode_utf8(ts@),
            ),
        ) || done is Err && final(db).same_as(*old(db)),
        bare(done),
{
    proof {
        reveal_strlit("slack_watermarks");
    }
    let key = watermark_key(workspace, conversation);
    db.put_text(WATERMARKS, key.as_str(), ts)
}

/// Two conversations have different keys, where no workspace's label holds the
/// character between.
pub proof fn watermark_keys_differ(
    workspace: Seq<char>,
    conversation: Seq<char>,
    other_workspace: Seq<char>,
    other_conversation: Seq<char>,
)
    requires
        !workspace.contains('\0'),
        !other_workspace.contains('\0'),
        watermark_key_of(workspace, conversation) == watermark_key_of(
            other_workspace,
            other_conversation,
        ),
    ensures
        workspace == other_workspace,
        conversation == other_conversation,
{
    let a = watermark_key_of(workspace, conversation);
    let b = watermark_key_of(other_workspace, other_conversation);
    let n = workspace.len() as int;
    let m = other_workspace.len() as int;
    if n < m {
        assert(a[n] == '\0');
        assert(b[n] == other_workspace[n]);
    } else if m < n {
        assert(b[m] == '\0');
        assert(a[m] == workspace[m]);
    }
    assert(n == m);
    assert(workspace =~= a.take(n));
    assert(other_workspace =~= b.take(n));
    assert(conversation =~= a.skip(n + 1));
    assert(other_conversation =~= b.skip(n + 1));
}

/// A watermark is read back as the text that it was set to.
pub proof fn watermark_reads_back(
    before: Map<(Seq<char>, Seq<Seq<char>>), Seq<u8>>,
    workspace: Seq<char>,
    conversation: Seq<char>,
    set: Seq<char>,
    read: Seq<char>,
)
    requires
        ({
            let key = key1(WATERMARKS@, watermark_key_of(workspace, conversation));
            before.insert(key, encode_utf8(set))[key] == encode_utf8(read)
        }),
    ensures
        read == set,
{
    lemma_same_bytes(set, read);
}

/// The key of a watermark is the workspace, a null and the conversation.
pub proof fn a_watermark_is_keyed_by_workspace_and_conversation(
    workspace: Seq<char>,
    conversation: Seq<char>,
)
    ensures
        ({
            let n = workspace.len() as int;
            let key = watermark_key_of(workspace, conversation);
            &&& key.len() == n + 1 + conversation.len()
            &&& key.take(n) == workspace
            &&& key[n] == '\0'
            &&& key.skip(n + 1) == conversation
        }),
{
    let n = workspace.len() as int;
    let key = watermark_key_of(workspace, conversation);
    assert(key.take(n) =~= workspace);
    assert(key.skip(n + 1) =~= conversation);
}

} // verus!
