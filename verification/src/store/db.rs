//! The database on this machine: tables of rows, each a key with bytes.
//!
//! A key is one text or several, or the sixteen bytes of an id. What the
//! bytes of a row mean is settled by whoever stores it.

use crate::order::{lemma_irreflexive, lemma_next_text, lemma_nothing_between, text_less};
use redb::ReadableTable;
use vstd::prelude::*;
use vstd::utf8::encode_utf8;

verus! {

/// `redb::Database`, a database in a file that it holds alone. What it holds
/// is told by [`text_rows`], [`id_rows`] and [`tables`], and where by
/// [`opened_at`].
#[verifier::external_type_specification]
#[verifier::external_body]
pub struct ExDatabase(redb::Database);

/// `redb::Error`, what goes wrong with a database.
#[verifier::external_type_specification]
#[verifier::external_body]
pub struct ExDatabaseError(redb::Error);

/// The rows whose keys are texts: by table and key, the bytes.
pub uninterp spec fn text_rows(database: redb::Database) -> Map<
    (Seq<char>, Seq<Seq<char>>),
    Seq<u8>,
>;

/// The rows whose keys are ids: by table and key, the bytes.
pub uninterp spec fn id_rows(database: redb::Database) -> Map<(Seq<char>, Seq<u8>), Seq<u8>>;

/// The tables that are there, with rows or without.
pub uninterp spec fn tables(database: redb::Database) -> Set<Seq<char>>;

/// The path that the database was made with.
pub uninterp spec fn opened_at(database: redb::Database) -> Seq<char>;

/// The key of a row in a table, of one text.
pub open spec fn key1(table: Seq<char>, a: Seq<char>) -> (Seq<char>, Seq<Seq<char>>) {
    (table, seq![a])
}

/// The key of a row in a table, of two texts.
pub open spec fn key2(table: Seq<char>, a: Seq<char>, b: Seq<char>) -> (
    Seq<char>,
    Seq<Seq<char>>,
) {
    (table, seq![a, b])
}

/// The key of a row in a table, of three texts.
pub open spec fn key3(table: Seq<char>, a: Seq<char>, b: Seq<char>, c: Seq<char>) -> (
    Seq<char>,
    Seq<Seq<char>>,
) {
    (table, seq![a, b, c])
}

/// `table` can name a table that is written to: it is not empty, and short
/// enough that its bytes fit where the database keeps the names.
pub open spec fn is_table_name(table: Seq<char>) -> bool {
    0 < table.len() <= 536_870_912
}

/// `text` can stand in a key before its last text: the length of its bytes
/// is kept in four.
pub open spec fn fits_in_key(text: Seq<char>) -> bool {
    encode_utf8(text).len() <= u32::MAX
}

/// Whether `text` can stand in a key before its last text.
fn is_key_part(text: &str) -> (fits: bool)
    ensures
        fits == fits_in_key(text@),
{
    text.as_bytes().len() <= u32::MAX as usize
}

/// `a` comes before `b`, part by part.
pub open spec fn parts_less(a: Seq<Seq<char>>, b: Seq<Seq<char>>) -> bool {
    exists|i: int|
        {
            &&& 0 <= i < a.len()
            &&& i < b.len()
            &&& #[trigger] text_less(a[i], b[i])
            &&& forall|j: int| 0 <= j < i ==> #[trigger] a[j] == b[j]
        }
}

/// `after` differs from `before` in the rows with texts for keys, and in
/// that it has `table`.
pub open spec fn wrote_texts(
    before: redb::Database,
    after: redb::Database,
    table: Seq<char>,
    rows: Map<(Seq<char>, Seq<Seq<char>>), Seq<u8>>,
) -> bool {
    &&& text_rows(after) == rows
    &&& id_rows(after) == id_rows(before)
    &&& tables(after) == tables(before).insert(table)
    &&& opened_at(after) == opened_at(before)
}

/// `after` differs from `before` in the rows with ids for keys, and in that
/// it has `table`.
pub open spec fn wrote_ids(
    before: redb::Database,
    after: redb::Database,
    table: Seq<char>,
    rows: Map<(Seq<char>, Seq<u8>), Seq<u8>>,
) -> bool {
    &&& id_rows(after) == rows
    &&& text_rows(after) == text_rows(before)
    &&& tables(after) == tables(before).insert(table)
    &&& opened_at(after) == opened_at(before)
}

/// `after` differs from `before` in the rows with texts for keys, and in that
/// it has both of `tables_of`.
pub open spec fn wrote_both(
    before: redb::Database,
    after: redb::Database,
    tables_of: (Seq<char>, Seq<char>),
    rows: Map<(Seq<char>, Seq<Seq<char>>), Seq<u8>>,
) -> bool {
    &&& text_rows(after) == rows
    &&& id_rows(after) == id_rows(before)
    &&& tables(after) == tables(before).insert(tables_of.0).insert(tables_of.1)
    &&& opened_at(after) == opened_at(before)
}

/// `after` is `before` without `table` and its rows.
pub open spec fn dropped_table(
    before: redb::Database,
    after: redb::Database,
    table: Seq<char>,
) -> bool {
    &&& text_rows(after) == outside_table(text_rows(before), table)
    &&& id_rows(after) == outside_id_table(id_rows(before), table)
    &&& tables(after) == tables(before).remove(table)
    &&& opened_at(after) == opened_at(before)
}

/// `after` holds what `before` does.
pub open spec fn holds_the_same(before: redb::Database, after: redb::Database) -> bool {
    &&& text_rows(after) == text_rows(before)
    &&& id_rows(after) == id_rows(before)
    &&& tables(after) == tables(before)
    &&& opened_at(after) == opened_at(before)
}

/// The rows with `written` among them, the later in place of the earlier.
pub open spec fn with_written(
    rows: Map<(Seq<char>, Seq<Seq<char>>), Seq<u8>>,
    table: Seq<char>,
    written: Seq<(String, Vec<u8>)>,
) -> Map<(Seq<char>, Seq<Seq<char>>), Seq<u8>>
    decreases written.len(),
{
    if written.len() == 0 {
        rows
    } else {
        with_written(rows, table, written.drop_last()).insert(
            key1(table, written.last().0@),
            written.last().1@,
        )
    }
}

/// The rows without those under `keys`.
pub open spec fn without_keys(
    rows: Map<(Seq<char>, Seq<Seq<char>>), Seq<u8>>,
    table: Seq<char>,
    keys: Seq<String>,
) -> Map<(Seq<char>, Seq<Seq<char>>), Seq<u8>>
    decreases keys.len(),
{
    if keys.len() == 0 {
        rows
    } else {
        without_keys(rows, table, keys.drop_last()).remove(key1(table, keys.last()@))
    }
}

/// The rows that are not in `table`.
pub open spec fn outside_table(
    rows: Map<(Seq<char>, Seq<Seq<char>>), Seq<u8>>,
    table: Seq<char>,
) -> Map<(Seq<char>, Seq<Seq<char>>), Seq<u8>> {
    rows.restrict(Set::new(|key: (Seq<char>, Seq<Seq<char>>)| key.0 != table))
}

/// The rows under ids that are not in `table`.
pub open spec fn outside_id_table(
    rows: Map<(Seq<char>, Seq<u8>), Seq<u8>>,
    table: Seq<char>,
) -> Map<(Seq<char>, Seq<u8>), Seq<u8>> {
    rows.restrict(Set::new(|key: (Seq<char>, Seq<u8>)| key.0 != table))
}

/// The rows that are not in `table` under one text.
pub open spec fn outside_table1(
    rows: Map<(Seq<char>, Seq<Seq<char>>), Seq<u8>>,
    table: Seq<char>,
) -> Map<(Seq<char>, Seq<Seq<char>>), Seq<u8>> {
    rows.restrict(
        Set::new(|key: (Seq<char>, Seq<Seq<char>>)| !(key.0 == table && key.1.len() == 1)),
    )
}

/// What is left when rows are removed by their keys.
pub proof fn lemma_without_keys(
    rows: Map<(Seq<char>, Seq<Seq<char>>), Seq<u8>>,
    table: Seq<char>,
    keys: Seq<String>,
)
    ensures
        forall|key: (Seq<char>, Seq<Seq<char>>)|
            #[trigger] without_keys(rows, table, keys).dom().contains(key) <==> rows.dom().contains(
                key,
            ) && !(exists|i: int| 0 <= i < keys.len() && key == key1(table, (#[trigger] keys[i])@)),
        forall|key: (Seq<char>, Seq<Seq<char>>)|
            #[trigger] without_keys(rows, table, keys).dom().contains(key) ==> without_keys(
                rows,
                table,
                keys,
            )[key] == rows[key],
    decreases keys.len(),
{
    if keys.len() > 0 {
        lemma_without_keys(rows, table, keys.drop_last());
        assert forall|key: (Seq<char>, Seq<Seq<char>>)|
            #[trigger] without_keys(rows, table, keys).dom().contains(
                key,
            ) <==> rows.dom().contains(key) && !(exists|i: int|
                0 <= i < keys.len() && key == key1(table, (#[trigger] keys[i])@)) by {
            let fewer = keys.drop_last();
            assert(fewer.len() == keys.len() - 1);
            if without_keys(rows, table, keys).dom().contains(key) {
                assert(without_keys(rows, table, fewer).dom().contains(key));
                if exists|i: int| 0 <= i < keys.len() && key == key1(table, (#[trigger] keys[i])@) {
                    let i = choose|i: int|
                        0 <= i < keys.len() && key == key1(table, (#[trigger] keys[i])@);
                    if i < fewer.len() {
                        assert(fewer[i] == keys[i]);
                    }
                    assert(false);
                }
            } else if rows.dom().contains(key) {
                if without_keys(rows, table, fewer).dom().contains(key) {
                    assert(key == key1(table, keys.last()@));
                    assert(keys[keys.len() - 1] == keys.last());
                } else {
                    let i = choose|i: int|
                        0 <= i < fewer.len() && key == key1(table, (#[trigger] fewer[i])@);
                    assert(keys[i] == fewer[i]);
                }
            }
        }
        assert forall|key: (Seq<char>, Seq<Seq<char>>)|
            #[trigger] without_keys(rows, table, keys).dom().contains(key) implies without_keys(
            rows,
            table,
            keys,
        )[key] == rows[key] by {
            let fewer = without_keys(rows, table, keys.drop_last());
            let gone = key1(table, keys.last()@);
            assert(without_keys(rows, table, keys) == fewer.remove(gone));
            assert(key != gone);
            assert(fewer.dom().contains(key));
            assert(fewer[key] == rows[key]);
        }
    }
}

/// `listed` are the rows of `table`, each once and in order.
pub open spec fn are_rows1(
    listed: Seq<(String, Vec<u8>)>,
    rows: Map<(Seq<char>, Seq<Seq<char>>), Seq<u8>>,
    table: Seq<char>,
) -> bool {
    &&& forall|i: int, j: int|
        0 <= i < j < listed.len() ==> text_less(
            (#[trigger] listed[i]).0@,
            (#[trigger] listed[j]).0@,
        )
    &&& forall|i: int|
        0 <= i < listed.len() ==> rows.dom().contains(key1(table, (#[trigger] listed[i]).0@))
            && rows[key1(table, listed[i].0@)] == listed[i].1@
    &&& forall|a: Seq<char>|
        #[trigger] rows.dom().contains(key1(table, a)) ==> exists|i: int|
            0 <= i < listed.len() && (#[trigger] listed[i]).0@ == a
}

/// `listed` are the rows of `table`, each once and in order.
pub open spec fn are_rows2(
    listed: Seq<(String, String, Vec<u8>)>,
    rows: Map<(Seq<char>, Seq<Seq<char>>), Seq<u8>>,
    table: Seq<char>,
) -> bool {
    &&& forall|i: int, j: int|
        0 <= i < j < listed.len() ==> parts_less(
            seq![(#[trigger] listed[i]).0@, listed[i].1@],
            seq![(#[trigger] listed[j]).0@, listed[j].1@],
        )
    &&& forall|i: int|
        0 <= i < listed.len() ==> rows.dom().contains(
            key2(table, (#[trigger] listed[i]).0@, listed[i].1@),
        ) && rows[key2(table, listed[i].0@, listed[i].1@)] == listed[i].2@
    &&& forall|a: Seq<char>, b: Seq<char>|
        #[trigger] rows.dom().contains(key2(table, a, b)) ==> exists|i: int|
            0 <= i < listed.len() && (#[trigger] listed[i]).0@ == a && listed[i].1@ == b
}

/// `text` is `from` or comes after it, and comes before `to`.
pub open spec fn is_between(text: Seq<char>, from: Seq<char>, to: Seq<char>) -> bool {
    !text_less(text, from) && text_less(text, to)
}

/// `listed` are the rows of `table` whose first text is between `from` and
/// `to`, each once and in order.
pub open spec fn are_rows2_between(
    listed: Seq<(String, String, Vec<u8>)>,
    rows: Map<(Seq<char>, Seq<Seq<char>>), Seq<u8>>,
    table: Seq<char>,
    from: Seq<char>,
    to: Seq<char>,
) -> bool {
    &&& forall|i: int, j: int|
        0 <= i < j < listed.len() ==> parts_less(
            seq![(#[trigger] listed[i]).0@, listed[i].1@],
            seq![(#[trigger] listed[j]).0@, listed[j].1@],
        )
    &&& forall|i: int|
        0 <= i < listed.len() ==> is_between((#[trigger] listed[i]).0@, from, to)
            && rows.dom().contains(key2(table, listed[i].0@, listed[i].1@)) && rows[key2(
            table,
            listed[i].0@,
            listed[i].1@,
        )] == listed[i].2@
    &&& forall|a: Seq<char>, b: Seq<char>|
        #[trigger] rows.dom().contains(key2(table, a, b)) && is_between(a, from, to)
            ==> exists|i: int|
            0 <= i < listed.len() && (#[trigger] listed[i]).0@ == a && listed[i].1@ == b
}

/// `listed` are the rows of `table` under `a` and another text, each once and
/// in the order of that text.
pub open spec fn are_rows2_of(
    listed: Seq<(String, String, Vec<u8>)>,
    rows: Map<(Seq<char>, Seq<Seq<char>>), Seq<u8>>,
    table: Seq<char>,
    a: Seq<char>,
) -> bool {
    &&& forall|i: int, j: int|
        0 <= i < j < listed.len() ==> text_less(
            (#[trigger] listed[i]).1@,
            (#[trigger] listed[j]).1@,
        )
    &&& forall|i: int|
        0 <= i < listed.len() ==> (#[trigger] listed[i]).0@ == a && rows.dom().contains(
            key2(table, a, listed[i].1@),
        ) && rows[key2(table, a, listed[i].1@)] == listed[i].2@
    &&& forall|b: Seq<char>|
        #[trigger] rows.dom().contains(key2(table, a, b)) ==> exists|i: int|
            0 <= i < listed.len() && (#[trigger] listed[i]).1@ == b
}

/// The row is under `a` and another text.
pub open spec fn is_under(a: Seq<char>) -> spec_fn((String, String, Vec<u8>)) -> bool {
    |row: (String, String, Vec<u8>)| row.0@ == a
}

/// The rows that are under `a`, in their order.
fn rows_under(rows: &Vec<(String, String, Vec<u8>)>, a: &String) -> (kept: Vec<
    (String, String, Vec<u8>),
>)
    ensures
        kept@.len() == rows@.filter(is_under(a@)).len(),
        forall|i: int|
            0 <= i < kept@.len() ==> (#[trigger] kept@[i]).0 == rows@.filter(is_under(a@))[i].0
                && kept@[i].1 == rows@.filter(is_under(a@))[i].1 && kept@[i].2@ == rows@.filter(
                is_under(a@),
            )[i].2@,
{
    let ghost p = is_under(a@);
    let mut kept: Vec<(String, String, Vec<u8>)> = Vec::new();
    proof {
        crate::seqs::lemma_filter_ends(rows@, p);
    }
    for i in 0..rows.len()
        invariant
            p == is_under(a@),
            kept@.len() == rows@.take(i as int).filter(p).len(),
            forall|j: int|
                0 <= j < kept@.len() ==> (#[trigger] kept@[j]).0 == rows@.take(i as int).filter(
                    p,
                )[j].0 && kept@[j].1 == rows@.take(i as int).filter(p)[j].1 && kept@[j].2@
                    == rows@.take(i as int).filter(p)[j].2@,
    {
        proof {
            crate::seqs::lemma_filter_step(rows@, p, i as int);
        }
        if rows[i].0 == *a {
            let bytes = rows[i].2.clone();
            assert(bytes@ =~= rows@[i as int].2@);
            kept.push((rows[i].0.clone(), rows[i].1.clone(), bytes));
        }
    }
    proof {
        crate::seqs::lemma_filter_ends(rows@, p);
    }
    kept
}

/// Of the rows of a table in order, those under `a` are in the order of their
/// other text.
proof fn lemma_under_in_order(listed: Seq<(String, String, Vec<u8>)>, a: Seq<char>)
    requires
        forall|i: int, j: int|
            0 <= i < j < listed.len() ==> parts_less(
                seq![(#[trigger] listed[i]).0@, listed[i].1@],
                seq![(#[trigger] listed[j]).0@, listed[j].1@],
            ),
    ensures
        forall|i: int, j: int|
            0 <= i < j < listed.filter(is_under(a)).len() ==> text_less(
                (#[trigger] listed.filter(is_under(a))[i]).1@,
                (#[trigger] listed.filter(is_under(a))[j]).1@,
            ),
    decreases listed.len(),
{
    let p = is_under(a);
    reveal(Seq::filter);
    if listed.len() > 0 {
        let fewer = listed.drop_last();
        let last = listed.len() - 1;
        lemma_under_in_order(fewer, a);
        crate::seqs::lemma_filter_keeps(fewer, p);
        lemma_irreflexive(a);
        if p(listed[last]) {
            assert forall|i: int| 0 <= i < fewer.filter(p).len() implies text_less(
                (#[trigger] fewer.filter(p)[i]).1@,
                listed[last].1@,
            ) by {
                let row = fewer.filter(p)[i];
                assert(p(row));
                let k = choose|k: int| 0 <= k < fewer.len() && fewer[k] == row;
                assert(listed[k] == row);
                lemma_second_text(listed[k].0@, listed[k].1@, listed[last].1@);
            }
        }
    }
}

/// Of two keys that begin with the same text the other text decides.
proof fn lemma_second_text(a: Seq<char>, b: Seq<char>, c: Seq<char>)
    requires
        parts_less(seq![a, b], seq![a, c]),
    ensures
        text_less(b, c),
{
    let x = seq![a, b];
    let y = seq![a, c];
    lemma_irreflexive(a);
    let d = choose|d: int|
        {
            &&& 0 <= d < x.len()
            &&& d < y.len()
            &&& #[trigger] text_less(x[d], y[d])
            &&& forall|e: int| 0 <= e < d ==> #[trigger] x[e] == y[e]
        };
    assert(d == 1);
}

/// What is kept of all the rows for being under `a` is all that is under it.
proof fn lemma_rows_under(
    listed: Seq<(String, String, Vec<u8>)>,
    rows: Map<(Seq<char>, Seq<Seq<char>>), Seq<u8>>,
    table: Seq<char>,
    a: Seq<char>,
)
    requires
        are_rows2(listed, rows, table),
    ensures
        are_rows2_of(listed.filter(is_under(a)), rows, table, a),
{
    let p = is_under(a);
    let kept = listed.filter(p);
    lemma_under_in_order(listed, a);
    crate::seqs::lemma_filter_keeps(listed, p);
    assert forall|i: int| 0 <= i < kept.len() implies (#[trigger] kept[i]).0@ == a
        && rows.dom().contains(key2(table, a, kept[i].1@)) && rows[key2(table, a, kept[i].1@)]
        == kept[i].2@ by {
        assert(p(kept[i]));
        let k = choose|k: int| 0 <= k < listed.len() && listed[k] == kept[i];
        assert(rows.dom().contains(key2(table, listed[k].0@, listed[k].1@)));
    }
    assert forall|b: Seq<char>| #[trigger]
        rows.dom().contains(key2(table, a, b)) implies exists|i: int|
        0 <= i < kept.len() && (#[trigger] kept[i]).1@ == b by {
        let k = choose|k: int|
            0 <= k < listed.len() && (#[trigger] listed[k]).0@ == a && listed[k].1@ == b;
        crate::seqs::lemma_filter_holds(listed, p, k);
        let i = choose|i: int| 0 <= i < kept.len() && kept[i] == listed[k];
        assert(kept[i].1@ == b);
    }
}

/// The rows between `a` and the text that comes next are those under `a`.
proof fn lemma_rows_of(
    listed: Seq<(String, String, Vec<u8>)>,
    rows: Map<(Seq<char>, Seq<Seq<char>>), Seq<u8>>,
    table: Seq<char>,
    a: Seq<char>,
)
    requires
        are_rows2_between(listed, rows, table, a, a.push('\0')),
    ensures
        are_rows2_of(listed, rows, table, a),
{
    lemma_next_text(a);
    lemma_irreflexive(a);
    assert forall|i: int| 0 <= i < listed.len() implies (#[trigger] listed[i]).0@ == a by {
        lemma_nothing_between(listed[i].0@, a);
    }
    assert forall|i: int, j: int| 0 <= i < j < listed.len() implies text_less(
        (#[trigger] listed[i]).1@,
        (#[trigger] listed[j]).1@,
    ) by {
        assert(listed[i].0@ == a && listed[j].0@ == a);
        lemma_second_text(a, listed[i].1@, listed[j].1@);
    }
}

/// `listed` are the rows of `table`, each once and in order.
pub open spec fn are_rows3(
    listed: Seq<(String, String, String, Vec<u8>)>,
    rows: Map<(Seq<char>, Seq<Seq<char>>), Seq<u8>>,
    table: Seq<char>,
) -> bool {
    &&& forall|i: int, j: int|
        0 <= i < j < listed.len() ==> parts_less(
            seq![(#[trigger] listed[i]).0@, listed[i].1@, listed[i].2@],
            seq![(#[trigger] listed[j]).0@, listed[j].1@, listed[j].2@],
        )
    &&& forall|i: int|
        0 <= i < listed.len() ==> rows.dom().contains(
            key3(table, (#[trigger] listed[i]).0@, listed[i].1@, listed[i].2@),
        ) && rows[key3(table, listed[i].0@, listed[i].1@, listed[i].2@)] == listed[i].3@
    &&& forall|a: Seq<char>, b: Seq<char>, c: Seq<char>|
        #[trigger] rows.dom().contains(key3(table, a, b, c)) ==> exists|i: int|
            0 <= i < listed.len() && (#[trigger] listed[i]).0@ == a && listed[i].1@ == b
                && listed[i].2@ == c
}

/// `listed` are the rows of `table`, each once and in the order of their ids'
/// bytes.
pub open spec fn are_id_rows(
    listed: Seq<([u8; 16], Vec<u8>)>,
    rows: Map<(Seq<char>, Seq<u8>), Seq<u8>>,
    table: Seq<char>,
) -> bool {
    &&& forall|i: int, j: int|
        0 <= i < j < listed.len() ==> crate::order::bytes_less(
            (#[trigger] listed[i]).0@,
            (#[trigger] listed[j]).0@,
        )
    &&& forall|i: int|
        0 <= i < listed.len() ==> rows.dom().contains((table, (#[trigger] listed[i]).0@))
            && rows[(table, listed[i].0@)] == listed[i].1@
    &&& forall|id: Seq<u8>|
        #[trigger] rows.dom().contains((table, id)) ==> exists|i: int|
            0 <= i < listed.len() && (#[trigger] listed[i]).0@ == id
}

/// Writing one row.
pub proof fn lemma_with_one(
    rows: Map<(Seq<char>, Seq<Seq<char>>), Seq<u8>>,
    table: Seq<char>,
    row: (String, Vec<u8>),
)
    ensures
        with_written(rows, table, seq![row]) == rows.insert(key1(table, row.0@), row.1@),
{
    reveal_with_fuel(with_written, 2);
    assert(seq![row].drop_last() =~= Seq::empty());
}

/// Removing one row.
pub proof fn lemma_without_one(
    rows: Map<(Seq<char>, Seq<Seq<char>>), Seq<u8>>,
    table: Seq<char>,
    key: String,
)
    ensures
        without_keys(rows, table, seq![key]) == rows.remove(key1(table, key@)),
{
    reveal_with_fuel(without_keys, 2);
    assert(seq![key].drop_last() =~= Seq::empty());
}

/// Writing to a table leaves the other tables alone.
pub proof fn lemma_written_elsewhere(
    rows: Map<(Seq<char>, Seq<Seq<char>>), Seq<u8>>,
    table: Seq<char>,
    written: Seq<(String, Vec<u8>)>,
    key: (Seq<char>, Seq<Seq<char>>),
)
    requires
        key.0 != table,
    ensures
        with_written(rows, table, written).dom().contains(key) == rows.dom().contains(key),
        rows.dom().contains(key) ==> with_written(rows, table, written)[key] == rows[key],
    decreases written.len(),
{
    if written.len() > 0 {
        lemma_written_elsewhere(rows, table, written.drop_last(), key);
    }
}

/// What stands under the keys that were written.
pub proof fn lemma_with_written(
    rows: Map<(Seq<char>, Seq<Seq<char>>), Seq<u8>>,
    table: Seq<char>,
    written: Seq<(String, Vec<u8>)>,
)
    requires
        forall|i: int, j: int|
            0 <= i < j < written.len() ==> (#[trigger] written[i]).0@ != (#[trigger] written[j]).0@,
    ensures
        forall|i: int|
            0 <= i < written.len() ==> with_written(rows, table, written).dom().contains(
                key1(table, (#[trigger] written[i]).0@),
            ) && with_written(rows, table, written)[key1(table, written[i].0@)] == written[i].1@,
        forall|key: (Seq<char>, Seq<Seq<char>>)|
            #[trigger] with_written(rows, table, written).dom().contains(key) ==> rows.dom().contains(
                key,
            ) || exists|i: int|
                0 <= i < written.len() && key == key1(table, (#[trigger] written[i]).0@),
    decreases written.len(),
{
    if written.len() > 0 {
        let fewer = written.drop_last();
        let last = written.len() - 1;
        assert forall|i: int, j: int| 0 <= i < j < fewer.len() implies (#[trigger] fewer[i]).0@ != (
        #[trigger] fewer[j]).0@ by {
            assert(fewer[i] == written[i] && fewer[j] == written[j]);
        }
        lemma_with_written(rows, table, fewer);
        assert forall|i: int| 0 <= i < written.len() implies with_written(
            rows,
            table,
            written,
        ).dom().contains(key1(table, (#[trigger] written[i]).0@)) && with_written(
            rows,
            table,
            written,
        )[key1(table, written[i].0@)] == written[i].1@ by {
            if i < last {
                assert(fewer[i] == written[i]);
                assert(written[i].0@ != written[last].0@);
                assert(key1(table, written[i].0@).1[0] != key1(table, written[last].0@).1[0]);
            }
        }
        assert forall|key: (Seq<char>, Seq<Seq<char>>)| #[trigger]
            with_written(rows, table, written).dom().contains(key) implies rows.dom().contains(key)
            || exists|i: int|
            0 <= i < written.len() && key == key1(table, (#[trigger] written[i]).0@) by {
            if key == key1(table, written[last].0@) {
            } else if !rows.dom().contains(key) {
                assert(with_written(rows, table, fewer).dom().contains(key));
                let i = choose|i: int|
                    0 <= i < fewer.len() && key == key1(table, (#[trigger] fewer[i]).0@);
                assert(fewer[i] == written[i]);
            }
        }
    }
}

/// When rows with different keys have replaced all that a table held, those
/// rows are what is listed: each of them, and nothing else.
pub proof fn replace_then_list(
    before: Map<(Seq<char>, Seq<Seq<char>>), Seq<u8>>,
    table: Seq<char>,
    written: Seq<(String, Vec<u8>)>,
    listed: Seq<(String, Vec<u8>)>,
)
    requires
        forall|i: int, j: int|
            0 <= i < j < written.len() ==> (#[trigger] written[i]).0@ != (#[trigger] written[j]).0@,
        are_rows1(listed, with_written(outside_table1(before, table), table, written), table),
    ensures
        forall|i: int|
            0 <= i < written.len() ==> exists|j: int|
                0 <= j < listed.len() && (#[trigger] listed[j]).0@ == (#[trigger] written[i]).0@
                    && listed[j].1@ == written[i].1@,
        forall|j: int|
            0 <= j < listed.len() ==> exists|i: int|
                0 <= i < written.len() && (#[trigger] written[i]).0@ == (#[trigger] listed[j]).0@
                    && listed[j].1@ == written[i].1@,
{
    let base = outside_table1(before, table);
    let after = with_written(base, table, written);
    lemma_with_written(base, table, written);
    assert forall|i: int| 0 <= i < written.len() implies exists|j: int|
        0 <= j < listed.len() && (#[trigger] listed[j]).0@ == (#[trigger] written[i]).0@
            && listed[j].1@ == written[i].1@ by {
        assert(after.dom().contains(key1(table, written[i].0@)));
        let j = choose|j: int|
            0 <= j < listed.len() && (#[trigger] listed[j]).0@ == written[i].0@;
        assert(after[key1(table, listed[j].0@)] == listed[j].1@);
    }
    assert forall|j: int| 0 <= j < listed.len() implies exists|i: int|
        0 <= i < written.len() && (#[trigger] written[i]).0@ == (#[trigger] listed[j]).0@
            && listed[j].1@ == written[i].1@ by {
        let key = key1(table, listed[j].0@);
        assert(after.dom().contains(key));
        assert(key.1.len() == 1);
        assert(!base.dom().contains(key));
        let i = choose|i: int|
            0 <= i < written.len() && key == key1(table, (#[trigger] written[i]).0@);
        assert(key.1[0] == written[i].0@);
    }
}

/// `redb::Database::create`: open the database in the file at `path`, or make
/// an empty one. What an existing file holds is not stated.
#[verifier::external_body]
fn create(path: &str) -> (opened: Result<redb::Database, redb::Error>)
    ensures
        opened matches Ok(database) ==> opened_at(database) == path@,
{
    Ok(redb::Database::create(path)?)
}

/// `redb::Database::compact`: the file may shrink; the rows stay, after an
/// error too. Whether it shrank is not stated.
#[verifier::external_body]
fn compact(database: &mut redb::Database) -> (shrunk: Result<bool, redb::Error>)
    ensures
        holds_the_same(*old(database), *final(database)),
{
    Ok(database.compact()?)
}

/// `redb::WriteTransaction::delete_table`, committed: the table is gone with
/// its rows, and the answer is whether it was there. The transaction is
/// atomic: after an error either all of it was done or nothing.
#[verifier::external_body]
fn delete_table(database: &mut redb::Database, table: &str) -> (dropped: Result<bool, redb::Error>)
    requires
        table@.len() > 0,
    ensures
        dropped matches Ok(was_there) ==> was_there == tables(*old(database)).contains(table@),
        dropped_table(*old(database), *final(database), table@) || dropped is Err
            && holds_the_same(*old(database), *final(database)),
{
    let txn = database.begin_write()?;
    let dropped = txn.delete_table(redb::TableDefinition::<&str, &[u8]>::new(table))?;
    txn.commit()?;
    Ok(dropped)
}

/// The text of an error, as `redb::Error` displays it. It is not stated: that
/// of an input or output error is the operating system's.
#[verifier::external_body]
fn error_text(error: &redb::Error) -> (text: String) {
    error.to_string()
}

/// `redb::ReadOnlyTable::get` in a table of one-text keys: the row under the
/// key. A table that is not there has no rows.
#[verifier::external_body]
fn get1(database: &redb::Database, table: &str, a: &str) -> (row: Result<
    Option<Vec<u8>>,
    redb::Error,
>)
    requires
        table@.len() > 0,
    ensures
        row matches Ok(Some(value)) ==> text_rows(*database).dom().contains(key1(table@, a@))
            && text_rows(*database)[key1(table@, a@)] == value@,
        row matches Ok(None) ==> !text_rows(*database).dom().contains(key1(table@, a@)),
{
    let definition = redb::TableDefinition::<&str, &[u8]>::new(table);
    match database.begin_read()?.open_table(definition) {
        Ok(open) => Ok(open.get(a)?.map(|value| value.value().to_vec())),
        Err(redb::TableError::TableDoesNotExist(_)) => Ok(None),
        Err(error) => Err(error.into()),
    }
}

/// `redb::ReadableTable::iter` in a table of one-text keys: its rows, each
/// once and in the order of their keys' bytes. A table that is not there has
/// no rows.
#[verifier::external_body]
fn list1(database: &redb::Database, table: &str) -> (rows: Result<
    Vec<(String, Vec<u8>)>,
    redb::Error,
>)
    requires
        table@.len() > 0,
    ensures
        rows matches Ok(rows) ==> are_rows1(rows@, text_rows(*database), table@),
{
    let definition = redb::TableDefinition::<&str, &[u8]>::new(table);
    let open = match database.begin_read()?.open_table(definition) {
        Ok(open) => open,
        Err(redb::TableError::TableDoesNotExist(_)) => return Ok(Vec::new()),
        Err(error) => return Err(error.into()),
    };
    open.iter()?
        .map(|row| Ok(row.map(|(a, value)| (a.value().to_owned(), value.value().to_vec()))?))
        .collect()
}

/// `redb::Table::remove` of each key in turn and then `redb::Table::insert` of
/// each row in turn, in a table of one-text keys and in one transaction. It is
/// atomic: after an error either all of it was done or nothing.
#[verifier::external_body]
fn rewrite1(
    database: &mut redb::Database,
    table: &str,
    keys: &Vec<String>,
    rows: &Vec<(String, Vec<u8>)>,
) -> (done: Result<(), redb::Error>)
    requires
        is_table_name(table@),
    ensures
        wrote_texts(
            *old(database),
            *final(database),
            table@,
            with_written(without_keys(text_rows(*old(database)), table@, keys@), table@, rows@),
        ) || done is Err && holds_the_same(*old(database), *final(database)),
{
    let txn = database.begin_write()?;
    {
        let mut open = txn.open_table(redb::TableDefinition::<&str, &[u8]>::new(table))?;
        for a in keys {
            open.remove(a.as_str())?;
        }
        for (a, value) in rows {
            open.insert(a.as_str(), value.as_slice())?;
        }
    }
    Ok(txn.commit()?)
}

/// `redb::ReadOnlyTable::get` in a table of one-text keys whose values are
/// texts. A table that is not there has no rows.
#[verifier::external_body]
fn get_text(database: &redb::Database, table: &str, a: &str) -> (row: Result<
    Option<String>,
    redb::Error,
>)
    requires
        table@.len() > 0,
    ensures
        row matches Ok(Some(value)) ==> text_rows(*database).dom().contains(key1(table@, a@))
            && text_rows(*database)[key1(table@, a@)] == encode_utf8(value@),
        row matches Ok(None) ==> !text_rows(*database).dom().contains(key1(table@, a@)),
{
    let definition = redb::TableDefinition::<&str, &str>::new(table);
    match database.begin_read()?.open_table(definition) {
        Ok(open) => Ok(open.get(a)?.map(|value| value.value().to_owned())),
        Err(redb::TableError::TableDoesNotExist(_)) => Ok(None),
        Err(error) => Err(error.into()),
    }
}

/// `redb::Table::insert` in a table of one-text keys whose values are texts.
/// The transaction is atomic: after an error the row is written or nothing
/// has changed.
#[verifier::external_body]
fn put_text(database: &mut redb::Database, table: &str, a: &str, value: &str) -> (done: Result<
    (),
    redb::Error,
>)
    requires
        is_table_name(table@),
    ensures
        wrote_texts(
            *old(database),
            *final(database),
            table@,
            text_rows(*old(database)).insert(key1(table@, a@), encode_utf8(value@)),
        ) || done is Err && holds_the_same(*old(database), *final(database)),
{
    let txn = database.begin_write()?;
    txn.open_table(redb::TableDefinition::<&str, &str>::new(table))?.insert(a, value)?;
    Ok(txn.commit()?)
}

/// `redb::ReadOnlyTable::get` in a table of two-text keys. A table that is
/// not there has no rows.
#[verifier::external_body]
fn get2(database: &redb::Database, table: &str, a: &str, b: &str) -> (row: Result<
    Option<Vec<u8>>,
    redb::Error,
>)
    requires
        table@.len() > 0,
        fits_in_key(a@),
    ensures
        row matches Ok(Some(value)) ==> text_rows(*database).dom().contains(key2(table@, a@, b@))
            && text_rows(*database)[key2(table@, a@, b@)] == value@,
        row matches Ok(None) ==> !text_rows(*database).dom().contains(key2(table@, a@, b@)),
{
    let definition = redb::TableDefinition::<(&str, &str), &[u8]>::new(table);
    match database.begin_read()?.open_table(definition) {
        Ok(open) => Ok(open.get((a, b))?.map(|value| value.value().to_vec())),
        Err(redb::TableError::TableDoesNotExist(_)) => Ok(None),
        Err(error) => Err(error.into()),
    }
}

/// `redb::ReadableTable::iter` in a table of two-text keys: its rows, each
/// once, in the order of their first texts and then of their second. A table
/// that is not there has no rows.
#[verifier::external_body]
fn list2(database: &redb::Database, table: &str) -> (rows: Result<
    Vec<(String, String, Vec<u8>)>,
    redb::Error,
>)
    requires
        table@.len() > 0,
    ensures
        rows matches Ok(rows) ==> are_rows2(rows@, text_rows(*database), table@),
{
    let definition = redb::TableDefinition::<(&str, &str), &[u8]>::new(table);
    let open = match database.begin_read()?.open_table(definition) {
        Ok(open) => open,
        Err(redb::TableError::TableDoesNotExist(_)) => return Ok(Vec::new()),
        Err(error) => return Err(error.into()),
    };
    let mut rows = Vec::new();
    for row in open.iter()? {
        let (key, value) = row?;
        let (a, b) = key.value();
        rows.push((a.to_owned(), b.to_owned(), value.value().to_vec()));
    }
    Ok(rows)
}

/// `redb::ReadableTable::range` in a table of two-text keys: its rows whose
/// first text is `from` or comes after it, and comes before `to`; each once,
/// in the order of their first texts and then of their second. A table that
/// is not there has no rows.
#[verifier::external_body]
fn list2_between(database: &redb::Database, table: &str, from: &str, to: &str) -> (rows: Result<
    Vec<(String, String, Vec<u8>)>,
    redb::Error,
>)
    requires
        table@.len() > 0,
        text_less(from@, to@),
        fits_in_key(from@),
        fits_in_key(to@),
    ensures
        rows matches Ok(rows) ==> are_rows2_between(
            rows@,
            text_rows(*database),
            table@,
            from@,
            to@,
        ),
{
    let definition = redb::TableDefinition::<(&str, &str), &[u8]>::new(table);
    let open = match database.begin_read()?.open_table(definition) {
        Ok(open) => open,
        Err(redb::TableError::TableDoesNotExist(_)) => return Ok(Vec::new()),
        Err(error) => return Err(error.into()),
    };
    let mut rows = Vec::new();
    for row in open.range((from, "")..(to, ""))? {
        let (key, value) = row?;
        let (a, b) = key.value();
        rows.push((a.to_owned(), b.to_owned(), value.value().to_vec()));
    }
    Ok(rows)
}

/// `redb::Table::insert` in a table of two-text keys. The transaction is
/// atomic: after an error the row is written or nothing has changed.
#[verifier::external_body]
fn put2(database: &mut redb::Database, table: &str, a: &str, b: &str, value: &Vec<u8>) -> (done:
    Result<(), redb::Error>)
    requires
        is_table_name(table@),
        fits_in_key(a@),
    ensures
        wrote_texts(
            *old(database),
            *final(database),
            table@,
            text_rows(*old(database)).insert(key2(table@, a@, b@), value@),
        ) || done is Err && holds_the_same(*old(database), *final(database)),
{
    let definition = redb::TableDefinition::<(&str, &str), &[u8]>::new(table);
    let txn = database.begin_write()?;
    txn.open_table(definition)?.insert((a, b), value.as_slice())?;
    Ok(txn.commit()?)
}

/// `redb::Table::remove` in a table of two-text keys; the answer is whether
/// there was a row. The transaction is atomic: after an error the row is gone
/// or nothing has changed.
#[verifier::external_body]
fn remove2(database: &mut redb::Database, table: &str, a: &str, b: &str) -> (existed: Result<
    bool,
    redb::Error,
>)
    requires
        is_table_name(table@),
        fits_in_key(a@),
    ensures
        existed matches Ok(existed) ==> existed == text_rows(*old(database)).dom().contains(
            key2(table@, a@, b@),
        ),
        wrote_texts(
            *old(database),
            *final(database),
            table@,
            text_rows(*old(database)).remove(key2(table@, a@, b@)),
        ) || existed is Err && holds_the_same(*old(database), *final(database)),
{
    let definition = redb::TableDefinition::<(&str, &str), &[u8]>::new(table);
    let txn = database.begin_write()?;
    let existed = txn.open_table(definition)?.remove((a, b))?.is_some();
    txn.commit()?;
    Ok(existed)
}

/// `redb::Table::insert` in two tables of two-text keys, under the same key
/// and in one transaction. It is atomic: after an error either both were
/// done or nothing.
#[verifier::external_body]
fn put2_in_both(
    database: &mut redb::Database,
    tables_of: (&str, &str),
    a: &str,
    b: &str,
    values: (&Vec<u8>, &Vec<u8>),
) -> (done: Result<(), redb::Error>)
    requires
        is_table_name(tables_of.0@),
        is_table_name(tables_of.1@),
        tables_of.0@ != tables_of.1@,
        fits_in_key(a@),
    ensures
        wrote_both(
            *old(database),
            *final(database),
            (tables_of.0@, tables_of.1@),
            text_rows(*old(database)).insert(key2(tables_of.0@, a@, b@), values.0@).insert(
                key2(tables_of.1@, a@, b@),
                values.1@,
            ),
        ) || done is Err && holds_the_same(*old(database), *final(database)),
{
    let first = redb::TableDefinition::<(&str, &str), &[u8]>::new(tables_of.0);
    let second = redb::TableDefinition::<(&str, &str), &[u8]>::new(tables_of.1);
    let txn = database.begin_write()?;
    txn.open_table(first)?.insert((a, b), values.0.as_slice())?;
    txn.open_table(second)?.insert((a, b), values.1.as_slice())?;
    Ok(txn.commit()?)
}

/// `redb::Table::remove` in two tables of two-text keys, under the same key
/// and in one transaction. It is atomic: after an error either both were
/// done or nothing.
#[verifier::external_body]
fn remove2_in_both(
    database: &mut redb::Database,
    tables_of: (&str, &str),
    a: &str,
    b: &str,
) -> (done: Result<(), redb::Error>)
    requires
        is_table_name(tables_of.0@),
        is_table_name(tables_of.1@),
        tables_of.0@ != tables_of.1@,
        fits_in_key(a@),
    ensures
        wrote_both(
            *old(database),
            *final(database),
            (tables_of.0@, tables_of.1@),
            text_rows(*old(database)).remove(key2(tables_of.0@, a@, b@)).remove(
                key2(tables_of.1@, a@, b@),
            ),
        ) || done is Err && holds_the_same(*old(database), *final(database)),
{
    let first = redb::TableDefinition::<(&str, &str), &[u8]>::new(tables_of.0);
    let second = redb::TableDefinition::<(&str, &str), &[u8]>::new(tables_of.1);
    let txn = database.begin_write()?;
    txn.open_table(first)?.remove((a, b))?;
    txn.open_table(second)?.remove((a, b))?;
    Ok(txn.commit()?)
}

/// `redb::ReadOnlyTable::get` in a table of three-text keys. A table that is
/// not there has no rows.
#[verifier::external_body]
fn get3(database: &redb::Database, table: &str, a: &str, b: &str, c: &str) -> (row: Result<
    Option<Vec<u8>>,
    redb::Error,
>)
    requires
        table@.len() > 0,
        fits_in_key(a@),
        fits_in_key(b@),
    ensures
        row matches Ok(Some(value)) ==> text_rows(*database).dom().contains(
            key3(table@, a@, b@, c@),
        ) && text_rows(*database)[key3(table@, a@, b@, c@)] == value@,
        row matches Ok(None) ==> !text_rows(*database).dom().contains(key3(table@, a@, b@, c@)),
{
    let definition = redb::TableDefinition::<(&str, &str, &str), &[u8]>::new(table);
    match database.begin_read()?.open_table(definition) {
        Ok(open) => Ok(open.get((a, b, c))?.map(|value| value.value().to_vec())),
        Err(redb::TableError::TableDoesNotExist(_)) => Ok(None),
        Err(error) => Err(error.into()),
    }
}

/// `redb::ReadableTable::iter` in a table of three-text keys: its rows, each
/// once, in the order of their first texts, then of their second, then of
/// their third. A table that is not there has no rows.
#[verifier::external_body]
fn list3(database: &redb::Database, table: &str) -> (rows: Result<
    Vec<(String, String, String, Vec<u8>)>,
    redb::Error,
>)
    requires
        table@.len() > 0,
    ensures
        rows matches Ok(rows) ==> are_rows3(rows@, text_rows(*database), table@),
{
    let definition = redb::TableDefinition::<(&str, &str, &str), &[u8]>::new(table);
    let open = match database.begin_read()?.open_table(definition) {
        Ok(open) => open,
        Err(redb::TableError::TableDoesNotExist(_)) => return Ok(Vec::new()),
        Err(error) => return Err(error.into()),
    };
    let mut rows = Vec::new();
    for row in open.iter()? {
        let (key, value) = row?;
        let (a, b, c) = key.value();
        rows.push((a.to_owned(), b.to_owned(), c.to_owned(), value.value().to_vec()));
    }
    Ok(rows)
}

/// `redb::Table::insert` in a table of three-text keys. The transaction is
/// atomic: after an error the row is written or nothing has changed.
#[verifier::external_body]
fn put3(
    database: &mut redb::Database,
    table: &str,
    a: &str,
    b: &str,
    c: &str,
    value: &Vec<u8>,
) -> (done: Result<(), redb::Error>)
    requires
        is_table_name(table@),
        fits_in_key(a@),
        fits_in_key(b@),
    ensures
        wrote_texts(
            *old(database),
            *final(database),
            table@,
            text_rows(*old(database)).insert(key3(table@, a@, b@, c@), value@),
        ) || done is Err && holds_the_same(*old(database), *final(database)),
{
    let definition = redb::TableDefinition::<(&str, &str, &str), &[u8]>::new(table);
    let txn = database.begin_write()?;
    txn.open_table(definition)?.insert((a, b, c), value.as_slice())?;
    Ok(txn.commit()?)
}

/// `redb::Table::remove` in a table of three-text keys; the answer is whether
/// there was a row. The transaction is atomic: after an error the row is gone
/// or nothing has changed.
#[verifier::external_body]
fn remove3(database: &mut redb::Database, table: &str, a: &str, b: &str, c: &str) -> (existed:
    Result<bool, redb::Error>)
    requires
        is_table_name(table@),
        fits_in_key(a@),
        fits_in_key(b@),
    ensures
        existed matches Ok(existed) ==> existed == text_rows(*old(database)).dom().contains(
            key3(table@, a@, b@, c@),
        ),
        wrote_texts(
            *old(database),
            *final(database),
            table@,
            text_rows(*old(database)).remove(key3(table@, a@, b@, c@)),
        ) || existed is Err && holds_the_same(*old(database), *final(database)),
{
    let definition = redb::TableDefinition::<(&str, &str, &str), &[u8]>::new(table);
    let txn = database.begin_write()?;
    let existed = txn.open_table(definition)?.remove((a, b, c))?.is_some();
    txn.commit()?;
    Ok(existed)
}

/// `redb::ReadableTable::iter` in a table whose keys are ids: its rows, each
/// once and in the order of the ids' bytes. A table that is not there has no
/// rows.
#[verifier::external_body]
fn list_ids(database: &redb::Database, table: &str) -> (rows: Result<
    Vec<([u8; 16], Vec<u8>)>,
    redb::Error,
>)
    requires
        table@.len() > 0,
    ensures
        rows matches Ok(rows) ==> are_id_rows(rows@, id_rows(*database), table@),
{
    let definition = redb::TableDefinition::<[u8; 16], &[u8]>::new(table);
    let open = match database.begin_read()?.open_table(definition) {
        Ok(open) => open,
        Err(redb::TableError::TableDoesNotExist(_)) => return Ok(Vec::new()),
        Err(error) => return Err(error.into()),
    };
    open.iter()?
        .map(|row| Ok(row.map(|(id, value)| (id.value(), value.value().to_vec()))?))
        .collect()
}

/// `redb::Table::insert` in a table whose keys are ids. The transaction is
/// atomic: after an error the row is written or nothing has changed.
#[verifier::external_body]
fn put_id(database: &mut redb::Database, table: &str, id: &[u8; 16], value: &Vec<u8>) -> (done:
    Result<(), redb::Error>)
    requires
        is_table_name(table@),
    ensures
        wrote_ids(
            *old(database),
            *final(database),
            table@,
            id_rows(*old(database)).insert((table@, id@), value@),
        ) || done is Err && holds_the_same(*old(database), *final(database)),
{
    let definition = redb::TableDefinition::<[u8; 16], &[u8]>::new(table);
    let txn = database.begin_write()?;
    txn.open_table(definition)?.insert(id, value.as_slice())?;
    Ok(txn.commit()?)
}

/// `redb::Table::remove` in a table whose keys are ids; the answer is whether
/// there was a row. The transaction is atomic: after an error the row is gone
/// or nothing has changed.
#[verifier::external_body]
fn remove_id(database: &mut redb::Database, table: &str, id: &[u8; 16]) -> (existed: Result<
    bool,
    redb::Error,
>)
    requires
        is_table_name(table@),
    ensures
        existed matches Ok(existed) ==> existed == id_rows(*old(database)).dom().contains(
            (table@, id@),
        ),
        wrote_ids(
            *old(database),
            *final(database),
            table@,
            id_rows(*old(database)).remove((table@, id@)),
        ) || existed is Err && holds_the_same(*old(database), *final(database)),
{
    let definition = redb::TableDefinition::<[u8; 16], &[u8]>::new(table);
    let txn = database.begin_write()?;
    let existed = txn.open_table(definition)?.remove(id)?.is_some();
    txn.commit()?;
    Ok(existed)
}

/// What went wrong with the database, in words.
#[derive(Debug, PartialEq, Eq)]
pub struct StoreError {
    /// What was being done, where that is told.
    pub context: Option<String>,
    /// What the database says of it.
    pub message: String,
}

/// What is told of an outcome whose error is in words already: a value as it
/// is, an error under `context`.
pub fn tell_words<T>(outcome: Result<T, String>, context: Option<String>) -> (told: Result<
    T,
    StoreError,
>)
    ensures
        told == (match outcome {
            Ok(value) => Ok::<T, StoreError>(value),
            Err(message) => Err::<T, StoreError>(StoreError { context, message }),
        }),
{
    match outcome {
        Ok(value) => Ok(value),
        Err(message) => Err(StoreError { context, message }),
    }
}

/// What is told of an outcome: a value as it is, an error in the database's
/// words and under `context`. The words are not stated: those of an input or
/// output error are the operating system's.
pub fn tell<T>(outcome: Result<T, redb::Error>, context: Option<String>) -> (told: Result<
    T,
    StoreError,
>)
    ensures
        match outcome {
            Ok(value) => told == Ok::<T, StoreError>(value),
            Err(_) => told matches Err(error) && error.context == context,
        },
{
    let in_words = match outcome {
        Ok(value) => Ok(value),
        Err(error) => Err(error_text(&error)),
    };
    tell_words(in_words, context)
}

/// What an error is told under where the database cannot take a key.
pub const KEY_CONTEXT: &'static str = "use the key";

/// What is said of a key that the database cannot take.
pub const KEY_TOO_LONG: &'static str = "a text of it is too long";

/// The outcome is that of a key that the database cannot take.
pub open spec fn refuses_key<T>(outcome: Result<T, StoreError>) -> bool {
    outcome matches Err(error) && error.message@ == KEY_TOO_LONG@ && (error.context matches Some(
        context,
    ) && context@ == KEY_CONTEXT@)
}

/// The error for a key that the database cannot take.
fn key_too_long() -> (error: StoreError)
    ensures
        error.message@ == KEY_TOO_LONG@,
        error.context matches Some(context) && context@ == KEY_CONTEXT@,
{
    StoreError { context: Some(KEY_CONTEXT.to_owned()), message: KEY_TOO_LONG.to_owned() }
}

/// The outcome is an error that is told under a context. None of the
/// database's own is.
pub open spec fn has_context<T>(outcome: Result<T, StoreError>) -> bool {
    outcome matches Err(error) && error.context is Some
}

/// The error, where there is one, is told under no context.
pub open spec fn bare<T>(outcome: Result<T, StoreError>) -> bool {
    outcome matches Err(error) ==> error.context is None
}

/// What an error is told under where the file at `path` was to be opened.
pub open spec fn open_context(path: Seq<char>) -> Seq<char> {
    "open redb database at "@ + path
}

/// What an error is told under where the file was to be shrunk.
pub const COMPACT_CONTEXT: &'static str = "compact redb database";

/// The database on this machine.
pub struct Db {
    inner: redb::Database,
}

impl Db {
    /// The rows whose keys are texts.
    pub closed spec fn rows(self) -> Map<(Seq<char>, Seq<Seq<char>>), Seq<u8>> {
        text_rows(self.inner)
    }

    /// The rows whose keys are ids.
    pub closed spec fn ids(self) -> Map<(Seq<char>, Seq<u8>), Seq<u8>> {
        id_rows(self.inner)
    }

    /// The tables that are there.
    pub closed spec fn tables(self) -> Set<Seq<char>> {
        tables(self.inner)
    }

    /// The path of the file.
    pub closed spec fn path(self) -> Seq<char> {
        opened_at(self.inner)
    }

    /// `self` holds what `other` does.
    pub open spec fn same_as(self, other: Db) -> bool {
        &&& self.rows() == other.rows()
        &&& self.ids() == other.ids()
        &&& self.tables() == other.tables()
        &&& self.path() == other.path()
    }

    /// `self` is `before` with `rows` for the rows under texts, and has
    /// `table`.
    pub open spec fn has_texts(
        self,
        before: Db,
        table: Seq<char>,
        rows: Map<(Seq<char>, Seq<Seq<char>>), Seq<u8>>,
    ) -> bool {
        &&& self.rows() == rows
        &&& self.ids() == before.ids()
        &&& self.tables() == before.tables().insert(table)
        &&& self.path() == before.path()
    }

    /// `self` is `before` with `rows` for the rows under texts, and has both
    /// of `tables_of`.
    pub open spec fn has_both(
        self,
        before: Db,
        tables_of: (Seq<char>, Seq<char>),
        rows: Map<(Seq<char>, Seq<Seq<char>>), Seq<u8>>,
    ) -> bool {
        &&& self.rows() == rows
        &&& self.ids() == before.ids()
        &&& self.tables() == before.tables().insert(tables_of.0).insert(tables_of.1)
        &&& self.path() == before.path()
    }

    /// `self` is `before` with `ids` for the rows under ids, and has `table`.
    pub open spec fn has_ids(
        self,
        before: Db,
        table: Seq<char>,
        ids: Map<(Seq<char>, Seq<u8>), Seq<u8>>,
    ) -> bool {
        &&& self.ids() == ids
        &&& self.rows() == before.rows()
        &&& self.tables() == before.tables().insert(table)
        &&& self.path() == before.path()
    }

    /// `self` is `before` without `table` and its rows.
    pub open spec fn lacks_table(self, before: Db, table: Seq<char>) -> bool {
        &&& self.rows() == outside_table(before.rows(), table)
        &&& self.ids() == outside_id_table(before.ids(), table)
        &&& self.tables() == before.tables().remove(table)
        &&& self.path() == before.path()
    }

    /// Open the database in the file at `path`, or make one. A file that
    /// another process holds is refused.
    pub fn open(path: &str) -> (opened: Result<Db, StoreError>)
        ensures
            opened matches Ok(db) ==> db.path() == path@,
            opened matches Err(error) ==> (error.context matches Some(context) && context@
                == open_context(path@)),
    {
        let mut context = "open redb database at ".to_owned();
        context.append(path);
        match tell(create(path), Some(context)) {
            Ok(inner) => Ok(Db { inner }),
            Err(error) => Err(error),
        }
    }

    /// Shrink the file. The rows stay, whatever comes of it.
    pub fn compact(&mut self) -> (shrunk: Result<bool, StoreError>)
        ensures
            final(self).same_as(*old(self)),
            shrunk matches Err(error) ==> (error.context matches Some(context) && context@
                == COMPACT_CONTEXT@),
    {
        tell(compact(&mut self.inner), Some(COMPACT_CONTEXT.to_owned()))
    }

    /// Drop a table with its rows. Whether it was there.
    pub fn drop_table(&mut self, table: &str) -> (dropped: Result<bool, StoreError>)
        requires
            table@.len() > 0,
        ensures
            dropped matches Ok(dropped) ==> dropped == old(self).tables().contains(table@),
            final(self).lacks_table(*old(self), table@) || dropped is Err && final(self).same_as(
                *old(self),
            ),
            bare(dropped),
    {
        tell(delete_table(&mut self.inner, table), None)
    }

    /// The row of a table under a text.
    pub fn get1(&self, table: &str, a: &str) -> (row: Result<Option<Vec<u8>>, StoreError>)
        requires
            table@.len() > 0,
        ensures
            row matches Ok(Some(value)) ==> self.rows().dom().contains(key1(table@, a@))
                && self.rows()[key1(table@, a@)] == value@,
            row matches Ok(None) ==> !self.rows().dom().contains(key1(table@, a@)),
            bare(row),
    {
        tell(get1(&self.inner, table, a), None)
    }

    /// The rows of a table under texts, in order.
    pub fn list1(&self, table: &str) -> (rows: Result<Vec<(String, Vec<u8>)>, StoreError>)
        requires
            table@.len() > 0,
        ensures
            rows matches Ok(rows) ==> are_rows1(rows@, self.rows(), table@),
            bare(rows),
    {
        tell(list1(&self.inner, table), None)
    }

    /// Write rows under texts, all or none.
    pub fn put1(&mut self, table: &str, rows: &Vec<(String, Vec<u8>)>) -> (done: Result<
        (),
        StoreError,
    >)
        requires
            is_table_name(table@),
        ensures
            final(self).has_texts(
                *old(self),
                table@,
                with_written(old(self).rows(), table@, rows@),
            ) || done is Err && final(self).same_as(*old(self)),
            bare(done),
    {
        tell(rewrite1(&mut self.inner, table, &Vec::new(), rows), None)
    }

    /// Let rows under texts be all that a table holds under one text.
    pub fn replace1(&mut self, table: &str, rows: &Vec<(String, Vec<u8>)>) -> (done: Result<
        (),
        StoreError,
    >)
        requires
            is_table_name(table@),
        ensures
            final(self).has_texts(
                *old(self),
                table@,
                with_written(outside_table1(old(self).rows(), table@), table@, rows@),
            ) || done is Err && final(self).same_as(*old(self)),
            bare(done),
    {
        let stored = match self.list1(table) {
            Ok(stored) => stored,
            Err(error) => return Err(error),
        };
        let mut keys: Vec<String> = Vec::new();
        for i in 0..stored.len()
            invariant
                keys@.len() == i,
                forall|j: int| 0 <= j < i ==> #[trigger] keys@[j] == stored@[j].0,
        {
            keys.push(stored[i].0.clone());
        }
        proof {
            let rows = self.rows();
            lemma_without_keys(rows, table@, keys@);
            assert forall|key: (Seq<char>, Seq<Seq<char>>)| #[trigger]
                without_keys(rows, table@, keys@).dom().contains(key) <==> outside_table1(
                    rows,
                    table@,
                ).dom().contains(key) by {
                if rows.dom().contains(key) && key.0 == table@ && key.1.len() == 1 {
                    assert(key.1 =~= seq![key.1[0]]);
                    assert(key == key1(table@, key.1[0]));
                    let i = choose|i: int|
                        0 <= i < stored@.len() && (#[trigger] stored@[i]).0@ == key.1[0];
                    assert(key == key1(table@, keys@[i]@));
                } else if rows.dom().contains(key) {
                    assert forall|i: int| 0 <= i < keys@.len() implies key != key1(
                        table@,
                        (#[trigger] keys@[i])@,
                    ) by {
                        assert(key1(table@, keys@[i]@).1.len() == 1);
                    }
                }
            }
            assert(without_keys(rows, table@, keys@) =~= outside_table1(rows, table@));
        }
        tell(rewrite1(&mut self.inner, table, &keys, rows), None)
    }

    /// Remove the rows under texts, all or none.
    pub fn remove1(&mut self, table: &str, keys: &Vec<String>) -> (done: Result<(), StoreError>)
        requires
            is_table_name(table@),
        ensures
            final(self).has_texts(
                *old(self),
                table@,
                without_keys(old(self).rows(), table@, keys@),
            ) || done is Err && final(self).same_as(*old(self)),
            bare(done),
    {
        tell(rewrite1(&mut self.inner, table, keys, &Vec::new()), None)
    }

    /// The text of a table under a text.
    pub fn get_text(&self, table: &str, a: &str) -> (row: Result<Option<String>, StoreError>)
        requires
            table@.len() > 0,
        ensures
            row matches Ok(Some(value)) ==> self.rows().dom().contains(key1(table@, a@))
                && self.rows()[key1(table@, a@)] == encode_utf8(value@),
            row matches Ok(None) ==> !self.rows().dom().contains(key1(table@, a@)),
            bare(row),
    {
        tell(get_text(&self.inner, table, a), None)
    }

    /// Write a text under a text.
    pub fn put_text(&mut self, table: &str, a: &str, value: &str) -> (done: Result<(), StoreError>)
        requires
            is_table_name(table@),
        ensures
            final(self).has_texts(
                *old(self),
                table@,
                old(self).rows().insert(key1(table@, a@), encode_utf8(value@)),
            ) || done is Err && final(self).same_as(*old(self)),
            bare(done),
    {
        tell(put_text(&mut self.inner, table, a, value), None)
    }

    /// The row of a table under two texts.
    pub fn get2(&self, table: &str, a: &str, b: &str) -> (row: Result<Option<Vec<u8>>, StoreError>)
        requires
            table@.len() > 0,
        ensures
            row matches Ok(Some(value)) ==> self.rows().dom().contains(key2(table@, a@, b@))
                && self.rows()[key2(table@, a@, b@)] == value@,
            row matches Ok(None) ==> !self.rows().dom().contains(key2(table@, a@, b@)),
            !fits_in_key(a@) ==> refuses_key(row),
            has_context(row) <==> !fits_in_key(a@),
    {
        if !is_key_part(a) {
            return Err(key_too_long());
        }
        tell(get2(&self.inner, table, a, b), None)
    }

    /// The rows of a table under two texts, in order.
    pub fn list2(&self, table: &str) -> (rows: Result<Vec<(String, String, Vec<u8>)>, StoreError>)
        requires
            table@.len() > 0,
        ensures
            rows matches Ok(rows) ==> are_rows2(rows@, self.rows(), table@),
            bare(rows),
    {
        tell(list2(&self.inner, table), None)
    }

    /// The rows of a table under `a` and another text, in order. Only they
    /// are read, but where `a` is so long that the text that comes next cannot
    /// stand in a key.
    pub fn list2_of(&self, table: &str, a: &String) -> (rows: Result<
        Vec<(String, String, Vec<u8>)>,
        StoreError,
    >)
        requires
            table@.len() > 0,
        ensures
            rows matches Ok(rows) ==> are_rows2_of(rows@, self.rows(), table@, a@),
            !fits_in_key(a@) ==> refuses_key(rows),
            has_context(rows) <==> !fits_in_key(a@),
    {
        if !is_key_part(a.as_str()) {
            return Err(key_too_long());
        }
        let mut next = a.clone();
        next.append("\0");
        proof {
            reveal_strlit("\0");
            assert(next@ =~= a@.push('\0'));
            lemma_next_text(a@);
        }
        if !is_key_part(next.as_str()) {
            return match self.list2(table) {
                Ok(rows) => {
                    let kept = rows_under(&rows, a);
                    proof {
                        let under = rows@.filter(is_under(a@));
                        lemma_rows_under(rows@, self.rows(), table@, a@);
                        assert forall|i: int, j: int| 0 <= i < j < kept@.len() implies text_less(
                            (#[trigger] kept@[i]).1@,
                            (#[trigger] kept@[j]).1@,
                        ) by {
                            assert(text_less(under[i].1@, under[j].1@));
                        }
                        assert forall|b: Seq<char>| #[trigger]
                            self.rows().dom().contains(key2(table@, a@, b)) implies exists|i: int|
                            0 <= i < kept@.len() && (#[trigger] kept@[i]).1@ == b by {
                            let i = choose|i: int|
                                0 <= i < under.len() && (#[trigger] under[i]).1@ == b;
                            assert(kept@[i].1@ == b);
                        }
                    }
                    Ok(kept)
                },
                Err(error) => Err(error),
            };
        }
        let rows = list2_between(&self.inner, table, a.as_str(), next.as_str());
        proof {
            if rows is Ok {
                lemma_rows_of(rows->Ok_0@, text_rows(self.inner), table@, a@);
            }
        }
        tell(rows, None)
    }

    /// Write a row under two texts.
    pub fn put2(&mut self, table: &str, a: &str, b: &str, value: &Vec<u8>) -> (done: Result<
        (),
        StoreError,
    >)
        requires
            is_table_name(table@),
        ensures
            final(self).has_texts(
                *old(self),
                table@,
                old(self).rows().insert(key2(table@, a@, b@), value@),
            ) || done is Err && final(self).same_as(*old(self)),
            !fits_in_key(a@) ==> refuses_key(done) && *final(self) == *old(self),
            has_context(done) <==> !fits_in_key(a@),
    {
        if !is_key_part(a) {
            return Err(key_too_long());
        }
        tell(put2(&mut self.inner, table, a, b, value), None)
    }

    /// Remove the row under two texts. Whether there was one.
    pub fn remove2(&mut self, table: &str, a: &str, b: &str) -> (existed: Result<bool, StoreError>)
        requires
            is_table_name(table@),
        ensures
            existed matches Ok(existed) ==> existed == old(self).rows().dom().contains(
                key2(table@, a@, b@),
            ),
            final(self).has_texts(
                *old(self),
                table@,
                old(self).rows().remove(key2(table@, a@, b@)),
            ) || existed is Err && final(self).same_as(*old(self)),
            !fits_in_key(a@) ==> refuses_key(existed) && *final(self) == *old(self),
            has_context(existed) <==> !fits_in_key(a@),
    {
        if !is_key_part(a) {
            return Err(key_too_long());
        }
        tell(remove2(&mut self.inner, table, a, b), None)
    }

    /// Write a row under the same two texts in two tables, both or none.
    pub fn put2_in_both(
        &mut self,
        tables_of: (&str, &str),
        a: &str,
        b: &str,
        values: (&Vec<u8>, &Vec<u8>),
    ) -> (done: Result<(), StoreError>)
        requires
            is_table_name(tables_of.0@),
            is_table_name(tables_of.1@),
            tables_of.0@ != tables_of.1@,
        ensures
            final(self).has_both(
                *old(self),
                (tables_of.0@, tables_of.1@),
                old(self).rows().insert(key2(tables_of.0@, a@, b@), values.0@).insert(
                    key2(tables_of.1@, a@, b@),
                    values.1@,
                ),
            ) || done is Err && final(self).same_as(*old(self)),
            !fits_in_key(a@) ==> refuses_key(done) && *final(self) == *old(self),
            has_context(done) <==> !fits_in_key(a@),
    {
        if !is_key_part(a) {
            return Err(key_too_long());
        }
        tell(put2_in_both(&mut self.inner, tables_of, a, b, values), None)
    }

    /// Remove the rows under the same two texts in two tables, both or none.
    pub fn remove2_in_both(&mut self, tables_of: (&str, &str), a: &str, b: &str) -> (done: Result<
        (),
        StoreError,
    >)
        requires
            is_table_name(tables_of.0@),
            is_table_name(tables_of.1@),
            tables_of.0@ != tables_of.1@,
        ensures
            final(self).has_both(
                *old(self),
                (tables_of.0@, tables_of.1@),
                old(self).rows().remove(key2(tables_of.0@, a@, b@)).remove(
                    key2(tables_of.1@, a@, b@),
                ),
            ) || done is Err && final(self).same_as(*old(self)),
            !fits_in_key(a@) ==> refuses_key(done) && *final(self) == *old(self),
            has_context(done) <==> !fits_in_key(a@),
    {
        if !is_key_part(a) {
            return Err(key_too_long());
        }
        tell(remove2_in_both(&mut self.inner, tables_of, a, b), None)
    }

    /// The row of a table under three texts.
    pub fn get3(&self, table: &str, a: &str, b: &str, c: &str) -> (row: Result<
        Option<Vec<u8>>,
        StoreError,
    >)
        requires
            table@.len() > 0,
        ensures
            row matches Ok(Some(value)) ==> self.rows().dom().contains(key3(table@, a@, b@, c@))
                && self.rows()[key3(table@, a@, b@, c@)] == value@,
            row matches Ok(None) ==> !self.rows().dom().contains(key3(table@, a@, b@, c@)),
            !(fits_in_key(a@) && fits_in_key(b@)) ==> refuses_key(row),
            has_context(row) <==> !(fits_in_key(a@) && fits_in_key(b@)),
    {
        if !is_key_part(a) || !is_key_part(b) {
            return Err(key_too_long());
        }
        tell(get3(&self.inner, table, a, b, c), None)
    }

    /// The rows of a table under three texts, in order.
    pub fn list3(&self, table: &str) -> (rows: Result<
        Vec<(String, String, String, Vec<u8>)>,
        StoreError,
    >)
        requires
            table@.len() > 0,
        ensures
            rows matches Ok(rows) ==> are_rows3(rows@, self.rows(), table@),
            bare(rows),
    {
        tell(list3(&self.inner, table), None)
    }

    /// Write a row under three texts.
    pub fn put3(&mut self, table: &str, a: &str, b: &str, c: &str, value: &Vec<u8>) -> (done:
        Result<(), StoreError>)
        requires
            is_table_name(table@),
        ensures
            final(self).has_texts(
                *old(self),
                table@,
                old(self).rows().insert(key3(table@, a@, b@, c@), value@),
            ) || done is Err && final(self).same_as(*old(self)),
            !(fits_in_key(a@) && fits_in_key(b@)) ==> refuses_key(done) && *final(self) == *old(self),
            has_context(done) <==> !(fits_in_key(a@) && fits_in_key(b@)),
    {
        if !is_key_part(a) || !is_key_part(b) {
            return Err(key_too_long());
        }
        tell(put3(&mut self.inner, table, a, b, c, value), None)
    }

    /// Remove the row under three texts. Whether there was one.
    pub fn remove3(&mut self, table: &str, a: &str, b: &str, c: &str) -> (existed: Result<
        bool,
        StoreError,
    >)
        requires
            is_table_name(table@),
        ensures
            existed matches Ok(existed) ==> existed == old(self).rows().dom().contains(
                key3(table@, a@, b@, c@),
            ),
            final(self).has_texts(
                *old(self),
                table@,
                old(self).rows().remove(key3(table@, a@, b@, c@)),
            ) || existed is Err && final(self).same_as(*old(self)),
            !(fits_in_key(a@) && fits_in_key(b@)) ==> refuses_key(existed) && *final(self) == *old(self),
            has_context(existed) <==> !(fits_in_key(a@) && fits_in_key(b@)),
    {
        if !is_key_part(a) || !is_key_part(b) {
            return Err(key_too_long());
        }
        tell(remove3(&mut self.inner, table, a, b, c), None)
    }

    /// The rows of a table under ids, in order.
    pub fn list_ids(&self, table: &str) -> (rows: Result<Vec<([u8; 16], Vec<u8>)>, StoreError>)
        requires
            table@.len() > 0,
        ensures
            rows matches Ok(rows) ==> are_id_rows(rows@, self.ids(), table@),
            bare(rows),
    {
        tell(list_ids(&self.inner, table), None)
    }

    /// Write a row under an id.
    pub fn put_id(&mut self, table: &str, id: &[u8; 16], value: &Vec<u8>) -> (done: Result<
        (),
        StoreError,
    >)
        requires
            is_table_name(table@),
        ensures
            final(self).has_ids(
                *old(self),
                table@,
                old(self).ids().insert((table@, id@), value@),
            ) || done is Err && final(self).same_as(*old(self)),
            bare(done),
    {
        tell(put_id(&mut self.inner, table, id, value), None)
    }

    /// Remove the row under an id. Whether there was one.
    pub fn remove_id(&mut self, table: &str, id: &[u8; 16]) -> (existed: Result<bool, StoreError>)
        requires
            is_table_name(table@),
        ensures
            existed matches Ok(existed) ==> existed == old(self).ids().dom().contains(
                (table@, id@),
            ),
            final(self).has_ids(
                *old(self),
                table@,
                old(self).ids().remove((table@, id@)),
            ) || existed is Err && final(self).same_as(*old(self)),
            bare(existed),
    {
        tell(remove_id(&mut self.inner, table, id), None)
    }
}

/// Two rows have the same key exactly where they are in the same table and
/// their parts are the same.
pub proof fn keys_are_told_apart(
    table: Seq<char>,
    other: Seq<char>,
    a: (Seq<char>, Seq<char>, Seq<char>),
    b: (Seq<char>, Seq<char>, Seq<char>),
)
    ensures
        key1(table, a.0) == key1(other, b.0) <==> table == other && a.0 == b.0,
        key2(table, a.0, a.1) == key2(other, b.0, b.1) <==> table == other && a.0 == b.0 && a.1
            == b.1,
        key3(table, a.0, a.1, a.2) == key3(other, b.0, b.1, b.2) <==> table == other && a.0 == b.0
            && a.1 == b.1 && a.2 == b.2,
        key1(table, a.0) != key2(other, b.0, b.1),
        key1(table, a.0) != key3(other, b.0, b.1, b.2),
        key2(table, a.0, a.1) != key3(other, b.0, b.1, b.2),
{
    let x1 = key1(table, a.0).1;
    let y1 = key1(other, b.0).1;
    let x2 = key2(table, a.0, a.1).1;
    let y2 = key2(other, b.0, b.1).1;
    let x3 = key3(table, a.0, a.1, a.2).1;
    let y3 = key3(other, b.0, b.1, b.2).1;
    assert(x1.len() == 1 && y1.len() == 1 && x2.len() == 2 && y2.len() == 2);
    assert(x3.len() == 3 && y3.len() == 3);
    assert(x1[0] == a.0 && y1[0] == b.0);
    assert(x2[0] == a.0 && x2[1] == a.1 && y2[0] == b.0 && y2[1] == b.1);
    assert(x3[0] == a.0 && x3[1] == a.1 && x3[2] == a.2);
    assert(y3[0] == b.0 && y3[1] == b.1 && y3[2] == b.2);
}

/// Of several rows that are written in turn each is there afterwards, unless a
/// later one has its key; every row of another key stays as it was.
pub proof fn the_last_row_written_stays(
    rows: Map<(Seq<char>, Seq<Seq<char>>), Seq<u8>>,
    table: Seq<char>,
    written: Seq<(String, Vec<u8>)>,
    i: int,
    other: (Seq<char>, Seq<Seq<char>>),
)
    ensures
        0 <= i < written.len() && (forall|j: int|
            i < j < written.len() ==> (#[trigger] written[j]).0@ != written[i].0@) ==> {
            &&& with_written(rows, table, written).dom().contains((table, seq![written[i].0@]))
            &&& with_written(rows, table, written)[(table, seq![written[i].0@])] == written[i].1@
        },
        (forall|j: int|
            0 <= j < written.len() ==> other != (table, seq![(#[trigger] written[j]).0@])) ==> {
            &&& with_written(rows, table, written).dom().contains(other) == rows.dom().contains(
                other,
            )
            &&& rows.dom().contains(other) ==> with_written(rows, table, written)[other]
                == rows[other]
        },
    decreases written.len(),
{
    if written.len() > 0 {
        let rest = written.drop_last();
        the_last_row_written_stays(rows, table, rest, i, other);
        assert(forall|j: int| 0 <= j < rest.len() ==> #[trigger] rest[j] == written[j]);
        let n = written.len() - 1;
        if 0 <= i < n && (forall|j: int|
            i < j < written.len() ==> (#[trigger] written[j]).0@ != written[i].0@) {
            assert(rest[i] == written[i]);
            assert(forall|j: int|
                i < j < rest.len() ==> (#[trigger] rest[j]).0@ != rest[i].0@);
            keys_are_told_apart(
                table,
                table,
                (written[i].0@, written[i].0@, written[i].0@),
                (written[n].0@, written[n].0@, written[n].0@),
            );
            assert(written[n].0@ != written[i].0@);
        }
        if forall|j: int|
            0 <= j < written.len() ==> other != (table, seq![(#[trigger] written[j]).0@]) {
            assert forall|j: int| 0 <= j < rest.len() implies other != (table, seq![
                (#[trigger] rest[j]).0@,
            ]) by {
                assert(rest[j] == written[j]);
            }
            assert(other != (table, seq![written[n].0@]));
        }
    }
}

/// Every key that is deleted is gone, and every other row stays as it was.
pub proof fn deleted_keys_are_gone(
    rows: Map<(Seq<char>, Seq<Seq<char>>), Seq<u8>>,
    table: Seq<char>,
    keys: Seq<String>,
    i: int,
    other: (Seq<char>, Seq<Seq<char>>),
)
    ensures
        0 <= i < keys.len() ==> !without_keys(rows, table, keys).dom().contains(
            (table, seq![keys[i]@]),
        ),
        (forall|j: int| 0 <= j < keys.len() ==> other != (table, seq![(#[trigger] keys[j])@])) ==> {
            &&& without_keys(rows, table, keys).dom().contains(other) == rows.dom().contains(other)
            &&& rows.dom().contains(other) ==> without_keys(rows, table, keys)[other]
                == rows[other]
        },
    decreases keys.len(),
{
    if keys.len() > 0 {
        let rest = keys.drop_last();
        deleted_keys_are_gone(rows, table, rest, i, other);
        let n = keys.len() - 1;
        if 0 <= i < n {
            assert(rest[i] == keys[i]);
        }
        if forall|j: int| 0 <= j < keys.len() ==> other != (table, seq![(#[trigger] keys[j])@]) {
            assert forall|j: int| 0 <= j < rest.len() implies other != (table, seq![
                (#[trigger] rest[j])@,
            ]) by {
                assert(rest[j] == keys[j]);
            }
            assert(other != (table, seq![keys[n]@]));
        }
    }
}

/// A table that is dropped has no row any more, of either kind; the rows of
/// every other table stay. A table that is cleared loses the rows with one
/// part, and no others.
pub proof fn a_dropped_table_takes_its_own_rows(
    rows: Map<(Seq<char>, Seq<Seq<char>>), Seq<u8>>,
    ids: Map<(Seq<char>, Seq<u8>), Seq<u8>>,
    table: Seq<char>,
    key: (Seq<char>, Seq<Seq<char>>),
    id: (Seq<char>, Seq<u8>),
)
    ensures
        key.0 == table ==> !outside_table(rows, table).dom().contains(key),
        key.0 != table ==> outside_table(rows, table).dom().contains(key) == rows.dom().contains(
            key,
        ),
        key.0 != table && rows.dom().contains(key) ==> outside_table(rows, table)[key] == rows[key],
        id.0 == table ==> !outside_id_table(ids, table).dom().contains(id),
        id.0 != table ==> outside_id_table(ids, table).dom().contains(id) == ids.dom().contains(id),
        id.0 != table && ids.dom().contains(id) ==> outside_id_table(ids, table)[id] == ids[id],
        key.0 == table && key.1.len() == 1 ==> !outside_table1(rows, table).dom().contains(key),
        key.0 != table || key.1.len() != 1 ==> outside_table1(rows, table).dom().contains(key)
            == rows.dom().contains(key),
        (key.0 != table || key.1.len() != 1) && rows.dom().contains(key) ==> outside_table1(
            rows,
            table,
        )[key] == rows[key],
{
}

/// What is written to a table is all that changes: the rows are the written
/// ones, the table is there, and ids, other tables and the place of the store
/// stay. What changes nothing changes none of them.
pub proof fn what_is_written_is_all_that_changes(
    before: Db,
    after: Db,
    table: Seq<char>,
    other: Seq<char>,
    rows: Map<(Seq<char>, Seq<Seq<char>>), Seq<u8>>,
    ids: Map<(Seq<char>, Seq<u8>), Seq<u8>>,
)
    ensures
        after.same_as(before) ==> after.rows() == before.rows() && after.ids() == before.ids()
            && after.tables() == before.tables() && after.path() == before.path(),
        after.has_texts(before, table, rows) ==> after.rows() == rows && after.ids()
            == before.ids() && after.path() == before.path() && after.tables().contains(table) && (
        other != table ==> after.tables().contains(other) == before.tables().contains(other)),
        after.has_ids(before, table, ids) ==> after.ids() == ids && after.rows() == before.rows()
            && after.path() == before.path() && after.tables().contains(table) && (other != table
            ==> after.tables().contains(other) == before.tables().contains(other)),
        after.has_both(before, (table, other), rows) ==> after.rows() == rows && after.ids()
            == before.ids() && after.path() == before.path() && after.tables().contains(table)
            && after.tables().contains(other),
        after.lacks_table(before, table) ==> !after.tables().contains(table) && after.path()
            == before.path() && (forall|key: (Seq<char>, Seq<Seq<char>>)|
            #![trigger after.rows().dom().contains(key)]
            key.0 == table ==> !after.rows().dom().contains(key)) && (forall|
            key: (Seq<char>, Seq<Seq<char>>),
        |
            #![trigger after.rows().dom().contains(key)]
            key.0 != table ==> after.rows().dom().contains(key) == before.rows().dom().contains(
                key,
            )),
{
}

/// A key that is refused is refused as too long; an error without a context is
/// bare.
pub proof fn a_refused_key_is_an_error<T>(outcome: Result<T, StoreError>)
    ensures
        refuses_key(outcome) ==> has_context(outcome) && (outcome matches Err(error)
            && error.message@ == "a text of it is too long"@ && (error.context matches Some(context)
            && context@ == "use the key"@)),
        outcome is Ok ==> !refuses_key(outcome) && !has_context(outcome) && bare(outcome),
        bare(outcome) <==> !has_context(outcome),
{
}

/// Of two keys the first part in which they differ decides which is less.
pub proof fn the_first_part_decides(a: Seq<Seq<char>>, b: Seq<Seq<char>>, i: int)
    ensures
        0 <= i < a.len() && i < b.len() && a.take(i) == b.take(i) && text_less(a[i], b[i])
            ==> parts_less(a, b),
        parts_less(a, b) ==> exists|k: int|
            {
                &&& 0 <= k < a.len()
                &&& k < b.len()
                &&& a.take(k) == b.take(k)
                &&& #[trigger] text_less(a[k], b[k])
            },
{
    if 0 <= i < a.len() && i < b.len() && a.take(i) == b.take(i) && text_less(a[i], b[i]) {
        assert forall|j: int| 0 <= j < i implies #[trigger] a[j] == b[j] by {
            assert(a.take(i)[j] == b.take(i)[j]);
        }
    }
    if parts_less(a, b) {
        let k = choose|k: int|
            {
                &&& 0 <= k < a.len()
                &&& k < b.len()
                &&& #[trigger] text_less(a[k], b[k])
                &&& forall|j: int| 0 <= j < k ==> #[trigger] a[j] == b[j]
            };
        assert(a.take(k) =~= b.take(k));
    }
}

/// What is listed of a table with one part, of one with two, of one with three
/// and of one with ids is what is stored in it, each row once: nothing else is
/// listed, and nothing is left out.
pub proof fn a_list_is_what_is_stored(
    rows: Map<(Seq<char>, Seq<Seq<char>>), Seq<u8>>,
    ids: Map<(Seq<char>, Seq<u8>), Seq<u8>>,
    table: Seq<char>,
    one: Seq<(String, Vec<u8>)>,
    two: Seq<(String, String, Vec<u8>)>,
    three: Seq<(String, String, String, Vec<u8>)>,
    by_id: Seq<([u8; 16], Vec<u8>)>,
    i: int,
)
    ensures
        are_rows1(one, rows, table) && 0 <= i < one.len() ==> rows.dom().contains(
            (table, seq![one[i].0@]),
        ) && rows[(table, seq![one[i].0@])] == one[i].1@,
        are_rows2(two, rows, table) && 0 <= i < two.len() ==> rows.dom().contains(
            (table, seq![two[i].0@, two[i].1@]),
        ) && rows[(table, seq![two[i].0@, two[i].1@])] == two[i].2@,
        are_rows3(three, rows, table) && 0 <= i < three.len() ==> rows.dom().contains(
            (table, seq![three[i].0@, three[i].1@, three[i].2@]),
        ) && rows[(table, seq![three[i].0@, three[i].1@, three[i].2@])] == three[i].3@,
        are_id_rows(by_id, ids, table) && 0 <= i < by_id.len() ==> ids.dom().contains(
            (table, by_id[i].0@),
        ) && ids[(table, by_id[i].0@)] == by_id[i].1@,
        are_rows1(one, rows, table) ==> forall|a: Seq<char>| #[trigger]
            rows.dom().contains(key1(table, a)) ==> exists|k: int|
                0 <= k < one.len() && (#[trigger] one[k]).0@ == a,
        are_rows2(two, rows, table) ==> forall|a: Seq<char>, b: Seq<char>| #[trigger]
            rows.dom().contains(key2(table, a, b)) ==> exists|k: int|
                0 <= k < two.len() && (#[trigger] two[k]).0@ == a && two[k].1@ == b,
        are_rows3(three, rows, table) ==> forall|a: Seq<char>, b: Seq<char>, c: Seq<char>|
            #[trigger] rows.dom().contains(key3(table, a, b, c)) ==> exists|k: int|
                0 <= k < three.len() && (#[trigger] three[k]).0@ == a && three[k].1@ == b
                    && three[k].2@ == c,
        are_id_rows(by_id, ids, table) ==> forall|id: Seq<u8>| #[trigger]
            ids.dom().contains((table, id)) ==> exists|k: int|
                0 <= k < by_id.len() && (#[trigger] by_id[k]).0@ == id,
{
}

/// The tables and the keys of single rows keep their names: what was written
/// under them before is found again.
pub proof fn tables_keep_their_names()
    ensures
        crate::store::cron::CRONS@ == "crons"@,
        crate::store::cron::CRON_MIGRATION@ == "cron_migration"@,
        crate::store::cron::SEEDED@ == "seeded"@,
        crate::store::dynamic_workers::DYNAMIC_WORKERS@ == "dynamic_workers"@,
        crate::store::gotify::SUBS@ == "subscriptions"@,
        crate::store::model_catalog::MODEL_CATALOG@ == "model_catalog"@,
        crate::store::plugins::PLUGIN_UPDATES@ == "plugin_updates"@,
        crate::store::pricing::PRICING_CACHE@ == "pricing_cache"@,
        crate::store::pricing::KEY@ == "litellm"@,
        crate::store::review::REVIEW_THREADS@ == "review_threads"@,
        crate::store::review::REVIEWS@ == "reviews"@,
        crate::store::session_tags::SESSION_TAGS@ == "session_tags"@,
        crate::store::sessions::SESSIONS@ == "sessions"@,
        crate::store::sessions::LEAD_LABEL@ == "lead"@,
        crate::store::slack::SUBS@ == "slack_subscriptions"@,
        crate::store::slack::WATERMARKS@ == "slack_watermarks"@,
        crate::store::state::SETTINGS@ == "settings"@,
        crate::store::state::SPINNER@ == "spinner"@,
        crate::store::state::ACCOUNT_USAGE@ == "account_usage"@,
{
}

} // verus!
