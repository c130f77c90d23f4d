//! The stored crons, one row each under its id.

use super::db::{
    are_rows1, bare, key1, lemma_with_one, lemma_without_one, lemma_written_elsewhere,
    outside_table1, replace_then_list, with_written, Db, StoreError,
};
use vstd::prelude::*;

verus! {

/// The table's name.
pub const CRONS: &'static str = "crons";

/// The name of the table that remembers whether the crons were seeded.
pub const CRON_MIGRATION: &'static str = "cron_migration";

/// The key under which it remembers that.
pub const SEEDED: &'static str = "seeded";

/// Write a cron's bytes, in place of what stood under its id.
pub fn insert(db: &mut Db, id: &String, encoded: &Vec<u8>) -> (done: Result<(), StoreError>)
    ensures
        final(db).has_texts(
            *old(db),
            CRONS@,
            old(db).rows().insert(key1(CRONS@, id@), encoded@),
        ) || done is Err && final(db).same_as(*old(db)),
        bare(done),
{
    proof {
        reveal_strlit("crons");
    }
    let mut rows: Vec<(String, Vec<u8>)> = Vec::new();
    let bytes = encoded.clone();
    assert(bytes@ =~= encoded@);
    rows.push((id.clone(), bytes));
    proof {
        lemma_with_one(db.rows(), CRONS@, rows@[0]);
        assert(rows@ =~= seq![rows@[0]]);
    }
    db.put1(CRONS, &rows)
}

/// Every cron's row, in the order of the ids.
pub fn list(db: &Db) -> (rows: Result<Vec<(String, Vec<u8>)>, StoreError>)
    ensures
        rows matches Ok(rows) ==> are_rows1(rows@, db.rows(), CRONS@),
        bare(rows),
{
    proof {
        reveal_strlit("crons");
    }
    db.list1(CRONS)
}

/// Remove a cron. Whether there was one.
pub fn remove(db: &mut Db, id: &String) -> (existed: Result<bool, StoreError>)
    ensures
        existed matches Ok(existed) ==> existed == old(db).rows().dom().contains(key1(CRONS@, id@)),
        final(db).has_texts(*old(db), CRONS@, old(db).rows().remove(key1(CRONS@, id@)))
            || existed is Err && final(db).same_as(*old(db)),
        bare(existed),
{
    proof {
        reveal_strlit("crons");
    }
    let existed = match db.get1(CRONS, id.as_str()) {
        Ok(Some(_)) => true,
        Ok(None) => false,
        Err(error) => return Err(error),
    };
    let mut keys: Vec<String> = Vec::new();
    keys.push(id.clone());
    proof {
        lemma_without_one(db.rows(), CRONS@, *id);
        assert(keys@ =~= seq![*id]);
    }
    match db.remove1(CRONS, &keys) {
        Ok(()) => Ok(existed),
        Err(error) => Err(error),
    }
}

/// Let these be all the crons there are.
pub fn replace_all(db: &mut Db, crons: &Vec<(String, Vec<u8>)>) -> (done: Result<(), StoreError>)
    ensures
        final(db).has_texts(
            *old(db),
            CRONS@,
            with_written(outside_table1(old(db).rows(), CRONS@), CRONS@, crons@),
        ) || done is Err && final(db).same_as(*old(db)),
        bare(done),
{
    proof {
        reveal_strlit("crons");
    }
    db.replace1(CRONS, crons)
}

/// The key of the mark that the crons were seeded.
pub open spec fn mark() -> (Seq<char>, Seq<Seq<char>>) {
    key1(CRON_MIGRATION@, SEEDED@)
}

/// Whether the crons were seeded on this machine.
pub fn seeded(db: &Db) -> (seeded: Result<bool, StoreError>)
    ensures
        seeded matches Ok(seeded) ==> seeded == db.rows().dom().contains(mark()),
        bare(seeded),
{
    proof {
        reveal_strlit("cron_migration");
    }
    match db.get1(CRON_MIGRATION, SEEDED) {
        Ok(Some(_)) => Ok(true),
        Ok(None) => Ok(false),
        Err(error) => Err(error),
    }
}

/// Remember that the crons were seeded.
pub fn mark_seeded(db: &mut Db) -> (done: Result<(), StoreError>)
    ensures
        final(db).has_texts(
            *old(db),
            CRON_MIGRATION@,
            old(db).rows().insert(mark(), seq![1u8]),
        ) || done is Err && final(db).same_as(*old(db)),
        bare(done),
{
    proof {
        reveal_strlit("cron_migration");
    }
    let mut rows: Vec<(String, Vec<u8>)> = Vec::new();
    rows.push((SEEDED.to_owned(), vec![1u8]));
    proof {
        lemma_with_one(db.rows(), CRON_MIGRATION@, rows@[0]);
        assert(rows@ =~= seq![rows@[0]]);
        assert(rows@[0].1@ =~= seq![1u8]);
    }
    db.put1(CRON_MIGRATION, &rows)
}

/// What came of seeding the crons.
#[derive(Debug, PartialEq, Eq)]
pub enum SeedOutcome {
    /// They were seeded before, or there was nothing to seed.
    Skipped,
    /// They were written and marked.
    Seeded,
    /// They were written, and marking them failed.
    Unmarked { error: StoreError },
    /// Writing them failed.
    Failed { error: StoreError },
}

/// A seeding, with what the store answered on the way.
#[derive(Debug, PartialEq, Eq)]
pub struct Seeding {
    /// Whether the mark was there, where that could be read.
    pub marker: Result<bool, StoreError>,
    pub outcome: SeedOutcome,
    /// Whether the crons could be listed then.
    pub listed: bool,
    /// The crons that were listed then; none where they could not be.
    pub crons: Vec<(String, Vec<u8>)>,
}

/// The crons of the synced file are to be seeded: there are some, and the mark
/// was not read to be there.
pub open spec fn is_due(
    marker: Result<bool, StoreError>,
    existing: Seq<(String, Vec<u8>)>,
) -> bool {
    existing.len() > 0 && marker != Ok::<bool, StoreError>(true)
}

/// Whether the crons of the synced file are to be seeded. It is the mark that
/// counts, not whether there are crons; where it cannot be read they count as
/// not seeded.
pub fn seeds(marker: &Result<bool, StoreError>, existing: &Vec<(String, Vec<u8>)>) -> (seed: bool)
    ensures
        seed == (existing@.len() > 0 && *marker != Ok::<bool, StoreError>(true)),
{
    let marked = match marker {
        Ok(seeded) => *seeded,
        Err(_) => false,
    };
    !marked && existing.len() > 0
}

/// What a seeding came to, by whether there was to be one and what writing the
/// crons and marking them gave.
pub fn seed_outcome(
    seed: bool,
    replaced: Result<(), StoreError>,
    marked: Result<(), StoreError>,
) -> (outcome: SeedOutcome)
    ensures
        outcome == (match (seed, replaced, marked) {
            (false, _, _) => SeedOutcome::Skipped,
            (true, Err(error), _) => SeedOutcome::Failed { error },
            (true, Ok(_), Err(error)) => SeedOutcome::Unmarked { error },
            (true, Ok(_), Ok(_)) => SeedOutcome::Seeded,
        }),
{
    if !seed {
        return SeedOutcome::Skipped;
    }
    match replaced {
        Err(error) => SeedOutcome::Failed { error },
        Ok(()) => match marked {
            Err(error) => SeedOutcome::Unmarked { error },
            Ok(()) => SeedOutcome::Seeded,
        },
    }
}

/// The crons that were listed; none where they could not be.
pub fn listed_or_none(listed: Result<Vec<(String, Vec<u8>)>, StoreError>) -> (crons: Vec<
    (String, Vec<u8>),
>)
    ensures
        match listed {
            Ok(listed) => crons@ == listed@,
            Err(_) => crons@.len() == 0,
        },
{
    match listed {
        Ok(listed) => listed,
        Err(_) => Vec::new(),
    }
}

/// The rows once `existing` is all the crons there are.
pub open spec fn all_replaced(
    rows: Map<(Seq<char>, Seq<Seq<char>>), Seq<u8>>,
    existing: Seq<(String, Vec<u8>)>,
) -> Map<(Seq<char>, Seq<Seq<char>>), Seq<u8>> {
    with_written(outside_table1(rows, CRONS@), CRONS@, existing)
}

/// Seed the crons from those of the synced file, once on this machine, and
/// list what is stored then. With all crons deleted they are not seeded again.
/// With nothing to seed nothing is marked, so that a file that arrives later
/// still counts.
pub fn seed_crons_from_toml_once(db: &mut Db, existing: &Vec<(String, Vec<u8>)>) -> (seeding:
    Seeding)
    ensures
        seeding.marker matches Ok(seeded) ==> seeded == old(db).rows().dom().contains(mark()),
        bare(seeding.marker),
        seeding.outcome is Skipped <==> !is_due(seeding.marker, existing@),
        match seeding.outcome {
            SeedOutcome::Skipped => *final(db) == *old(db),
            SeedOutcome::Seeded => final(db).rows() == all_replaced(
                old(db).rows(),
                existing@,
            ).insert(mark(), seq![1u8]),
            SeedOutcome::Unmarked { error } => error.context is None && (final(db).rows()
                == all_replaced(old(db).rows(), existing@) || final(db).rows() == all_replaced(
                old(db).rows(),
                existing@,
            ).insert(mark(), seq![1u8])),
            SeedOutcome::Failed { error } => error.context is None && (final(db).rows() == old(
                db).rows() || final(db).rows() == all_replaced(old(db).rows(), existing@)),
        },
        final(db).ids() == old(db).ids(),
        final(db).path() == old(db).path(),
        if seeding.listed {
            are_rows1(seeding.crons@, final(db).rows(), CRONS@)
        } else {
            seeding.crons@.len() == 0
        },
{
    let marker = seeded(db);
    let seed = seeds(&marker, existing);
    let replaced = if seed {
        replace_all(db, existing)
    } else {
        Ok(())
    };
    let written = match &replaced {
        Ok(()) => true,
        Err(_) => false,
    };
    let marked = if seed && written {
        mark_seeded(db)
    } else {
        Ok(())
    };
    let outcome = seed_outcome(seed, replaced, marked);
    let rows = list(db);
    let listed = match &rows {
        Ok(_) => true,
        Err(_) => false,
    };
    Seeding { marker, outcome, listed, crons: listed_or_none(rows) }
}

/// Where the mark is read to be there nothing is seeded, however much the
/// file holds; and the mark outlives whatever the crons are replaced with,
/// nothing at all included.
pub proof fn seeding_is_not_repeated(
    rows: Map<(Seq<char>, Seq<Seq<char>>), Seq<u8>>,
    marker: Result<bool, StoreError>,
    existing: Seq<(String, Vec<u8>)>,
    crons: Seq<(String, Vec<u8>)>,
)
    requires
        rows.dom().contains(mark()),
        marker == Ok::<bool, StoreError>(rows.dom().contains(mark())),
    ensures
        !is_due(marker, existing),
        all_replaced(rows, crons).dom().contains(mark()),
        all_replaced(rows, crons)[mark()] == rows[mark()],
{
    reveal_strlit("crons");
    reveal_strlit("cron_migration");
    assert(CRONS@.len() != CRON_MIGRATION@.len());
    lemma_written_elsewhere(outside_table1(rows, CRONS@), CRONS@, crons, mark());
}

/// Once they were seeded and marked, the crons of the file are all that is
/// listed, and the next seeding finds the mark.
pub proof fn seeded_is_listed(
    before: Map<(Seq<char>, Seq<Seq<char>>), Seq<u8>>,
    existing: Seq<(String, Vec<u8>)>,
    listed: Seq<(String, Vec<u8>)>,
)
    requires
        forall|i: int, j: int|
            0 <= i < j < existing.len() ==> (#[trigger] existing[i]).0@ != (
            #[trigger] existing[j]).0@,
        are_rows1(listed, all_replaced(before, existing).insert(mark(), seq![1u8]), CRONS@),
    ensures
        all_replaced(before, existing).insert(mark(), seq![1u8]).dom().contains(mark()),
        forall|i: int|
            0 <= i < existing.len() ==> exists|j: int|
                0 <= j < listed.len() && (#[trigger] listed[j]).0@ == (#[trigger] existing[i]).0@
                    && listed[j].1@ == existing[i].1@,
        forall|j: int|
            0 <= j < listed.len() ==> exists|i: int|
                0 <= i < existing.len() && (#[trigger] existing[i]).0@ == (#[trigger] listed[j]).0@
                    && listed[j].1@ == existing[i].1@,
{
    reveal_strlit("crons");
    reveal_strlit("cron_migration");
    assert(CRONS@.len() != CRON_MIGRATION@.len());
    let replaced = all_replaced(before, existing);
    let after = replaced.insert(mark(), seq![1u8]);
    assert forall|a: Seq<char>| #[trigger]
        replaced.dom().contains(key1(CRONS@, a)) implies exists|i: int|
        0 <= i < listed.len() && (#[trigger] listed[i]).0@ == a by {
        assert(after.dom().contains(key1(CRONS@, a)));
    }
    assert(are_rows1(listed, replaced, CRONS@));
    replace_then_list(before, CRONS@, existing, listed);
}

/// A cron that was inserted is listed with the bytes it was inserted with.
pub proof fn insert_then_list(
    before: Map<(Seq<char>, Seq<Seq<char>>), Seq<u8>>,
    id: Seq<char>,
    encoded: Seq<u8>,
    listed: Seq<(String, Vec<u8>)>,
)
    requires
        are_rows1(listed, before.insert(key1(CRONS@, id), encoded), CRONS@),
    ensures
        exists|i: int|
            0 <= i < listed.len() && (#[trigger] listed[i]).0@ == id && listed[i].1@ == encoded,
{
    let after = before.insert(key1(CRONS@, id), encoded);
    assert(after.dom().contains(key1(CRONS@, id)));
    let i = choose|i: int| 0 <= i < listed.len() && (#[trigger] listed[i]).0@ == id;
    assert(after[key1(CRONS@, listed[i].0@)] == listed[i].1@);
}

/// The stored crons are taken over exactly where there are any and no mark
/// says that they were; a mark that cannot be read says nothing.
pub proof fn a_takeover_is_due_until_it_is_marked(
    marker: Result<bool, StoreError>,
    existing: Seq<(String, Vec<u8>)>,
)
    ensures
        existing.len() == 0 ==> !is_due(marker, existing),
        (marker matches Ok(marked) && marked) ==> !is_due(marker, existing),
        existing.len() > 0 && (marker matches Ok(marked) ==> !marked) ==> is_due(marker, existing),
{
}

/// Replacing the crons touches no row of another table.
pub proof fn replaced_crons_leave_other_tables(
    rows: Map<(Seq<char>, Seq<Seq<char>>), Seq<u8>>,
    existing: Seq<(String, Vec<u8>)>,
    other: (Seq<char>, Seq<Seq<char>>),
)
    requires
        other.0 != CRONS@,
    ensures
        all_replaced(rows, existing).dom().contains(other) == rows.dom().contains(other),
        rows.dom().contains(other) ==> all_replaced(rows, existing)[other] == rows[other],
{
    crate::store::db::the_last_row_written_stays(
        outside_table1(rows, CRONS@),
        CRONS@,
        existing,
        0,
        other,
    );
}

/// After the crons were replaced a cron is stored exactly where it is one of
/// the given ones, with the last row given for it.
pub proof fn replaced_crons_are_the_given_ones(
    rows: Map<(Seq<char>, Seq<Seq<char>>), Seq<u8>>,
    existing: Seq<(String, Vec<u8>)>,
    id: Seq<char>,
    i: int,
)
    ensures
        (forall|j: int| 0 <= j < existing.len() ==> (#[trigger] existing[j]).0@ != id)
            ==> !all_replaced(rows, existing).dom().contains(key1(CRONS@, id)),
        0 <= i < existing.len() && existing[i].0@ == id && (forall|j: int|
            i < j < existing.len() ==> (#[trigger] existing[j]).0@ != id) ==> {
            &&& all_replaced(rows, existing).dom().contains(key1(CRONS@, id))
            &&& all_replaced(rows, existing)[key1(CRONS@, id)] == existing[i].1@
        },
{
    let left = outside_table1(rows, CRONS@);
    let at = key1(CRONS@, id);
    crate::store::db::the_last_row_written_stays(left, CRONS@, existing, i, at);
    if forall|j: int| 0 <= j < existing.len() ==> (#[trigger] existing[j]).0@ != id {
        assert forall|j: int| 0 <= j < existing.len() implies at != (CRONS@, seq![
            (#[trigger] existing[j]).0@,
        ]) by {
            crate::store::db::keys_are_told_apart(
                CRONS@,
                CRONS@,
                (id, id, id),
                (existing[j].0@, id, id),
            );
        }
        assert(!left.dom().contains(at));
    }
}

} // verus!
