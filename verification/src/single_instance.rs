//! One instance for each configuration directory.
//!
//! An instance holds a lock on a file of its own, whose contents name the
//! process. The lock goes with the process.

use crate::text::{decimal, decimal_text, digit, digit_value, digits_value, is_white, parse_number,
    parsed, trim, trimmed, trimmed_end, trimmed_start};
use vstd::prelude::*;

verus! {

/// The directory of the lock files, under that of the application's support
/// files.
pub const LOCK_DIR_NAME: &'static str = "locks";

/// The name of the lock file of the configuration directory whose path hashes
/// to `hash`.
pub fn lock_file_name(hash: &str) -> (name: String)
    ensures
        name@ == hash@ + ".lock"@,
{
    let mut name = hash.to_owned();
    name.append(".lock");
    name
}

/// What came of trying to lock the file.
#[derive(Debug, PartialEq, Eq)]
pub enum LockAttempt {
    /// Its directory could not be made.
    NoDirectory,
    /// It could not be opened.
    NoFile,
    /// It is locked now.
    Locked,
    /// Another process has it locked. What the file holds, where it could be
    /// read.
    Contended { contents: Option<String> },
    /// The file system does not lock.
    Unsupported,
}

/// Why a second instance does not start.
#[derive(Debug, Clone, Copy, PartialEq, Eq)]
pub enum AcquireError {
    /// Another has the directory. Its process, where the file names one.
    AlreadyRunning { pid: Option<u32> },
}

/// What an instance does about the lock.
#[derive(Debug, Clone, Copy, PartialEq, Eq, Structural)]
pub enum Guard {
    /// Hold it as long as the process runs, and write who holds it.
    Hold,
    /// Go on without it.
    Skip,
}

/// The process that a lock file names.
pub open spec fn named_pid(contents: Option<String>) -> Option<nat> {
    match contents {
        Some(text) => parsed(trimmed(text@), u32::MAX as nat),
        None => None,
    }
}

/// The process that a lock file names, where it names one.
pub fn read_pid(contents: &Option<String>) -> (pid: Option<u32>)
    ensures
        match (pid, named_pid(*contents)) {
            (Some(pid), Some(number)) => pid == number,
            (None, None) => true,
            _ => false,
        },
{
    match contents {
        Some(text) => match parse_number(trim(text.as_str()).as_str(), u32::MAX as u64) {
            Some(pid) => {
                assert(pid <= u32::MAX);
                Some(pid as u32)
            },
            None => None,
        },
        None => None,
    }
}

/// What the holder writes in the lock file.
pub fn record_pid(pid: u32) -> (contents: String)
    ensures
        contents@ == decimal(pid as nat),
{
    decimal_text(pid as u64)
}

/// What an attempt at the lock comes to.
pub open spec fn lock_acquired(attempt: LockAttempt, guard: Result<Guard, AcquireError>) -> bool {
    &&& guard is Err <==> attempt is Contended
    &&& guard == Ok::<Guard, AcquireError>(Guard::Hold) <==> attempt is Locked
    &&& guard matches Err(AcquireError::AlreadyRunning { pid }) ==> match (
        pid,
        named_pid(attempt->contents),
    ) {
        (Some(pid), Some(number)) => pid == number,
        (None, None) => true,
        _ => false,
    }
}

/// What to do after the attempt to lock the file: hold the lock, or go on
/// without where it cannot be had at all, or not start because another
/// instance has it.
pub fn acquire(attempt: &LockAttempt) -> (guard: Result<Guard, AcquireError>)
    ensures
        lock_acquired(*attempt, guard),
{
    match attempt {
        LockAttempt::Locked => Ok(Guard::Hold),
        LockAttempt::Contended { contents } => Err(
            AcquireError::AlreadyRunning { pid: read_pid(contents) },
        ),
        _ => Ok(Guard::Skip),
    }
}

/// The decimal digits of a number give it back, and none of them is white
/// space or a sign.
proof fn lemma_decimal(n: nat)
    ensures
        decimal(n).len() > 0,
        digits_value(decimal(n)) == Some(n),
        forall|i: int|
            0 <= i < decimal(n).len() ==> '0' as int <= (#[trigger] decimal(n)[i]) as int <= '9' as int,
    decreases n,
{
    if n < 10 {
        assert(decimal(n).drop_last() =~= Seq::empty());
        assert(digit_value(digit(n)) == Some(n));
        reveal_with_fuel(digits_value, 2);
    } else {
        lemma_decimal(n / 10);
        assert(decimal(n).drop_last() =~= decimal(n / 10));
        assert(digit_value(digit(n % 10)) == Some(n % 10));
        assert((n / 10) * 10 + n % 10 == n);
    }
}

/// The process that holds the lock is the one that a second instance names.
pub proof fn holder_is_named(pid: u32)
    ensures
        parsed(trimmed(decimal(pid as nat)), u32::MAX as nat) == Some(pid as nat),
{
    let text = decimal(pid as nat);
    lemma_decimal(pid as nat);
    assert(!is_white(text[0]));
    assert(trimmed_start(text) == text);
    assert(!is_white(text[text.len() - 1]));
    assert(trimmed_end(text) == text);
    assert(text[0] != '+');
}

/// The process that is recorded in the lock file is the one that is read from
/// it, with or without white space behind it; nothing is read from a file that
/// is not there, or that holds no number.
pub proof fn a_recorded_pid_is_read_back(pid: u32, contents: String, tail: Seq<char>)
    ensures
        named_pid(None) is None,
        contents@ == decimal(pid as nat) + tail && (forall|i: int|
            0 <= i < tail.len() ==> is_white(#[trigger] tail[i])) ==> named_pid(Some(contents))
            == Some(pid as nat),
        trimmed(contents@).len() == 0 ==> named_pid(Some(contents)) is None,
{
    let text = decimal(pid as nat);
    if contents@ == text + tail && (forall|i: int|
        0 <= i < tail.len() ==> is_white(#[trigger] tail[i])) {
        holder_is_named(pid);
        lemma_decimal(pid as nat);
        assert(contents@[0] == text[0]);
        assert(!is_white(contents@[0]));
        assert(trimmed_start(contents@) == contents@);
        lemma_white_tail(text, tail);
        assert(trimmed_end(contents@) == text);
        assert(!is_white(text[text.len() - 1]));
        assert(trimmed_end(text) == text);
        assert(trimmed_start(text) == text);
    }
}

/// White space behind a text that ends otherwise is trimmed.
proof fn lemma_white_tail(text: Seq<char>, tail: Seq<char>)
    requires
        text.len() > 0,
        !is_white(text.last()),
        forall|i: int| 0 <= i < tail.len() ==> is_white(#[trigger] tail[i]),
    ensures
        trimmed_end(text + tail) == text,
    decreases tail.len(),
{
    let whole = text + tail;
    if tail.len() == 0 {
        assert(whole =~= text);
    } else {
        assert(whole.last() == tail[tail.len() - 1]);
        assert(whole.drop_last() =~= text + tail.drop_last());
        lemma_white_tail(text, tail.drop_last());
    }
}

/// A second instance does not start exactly where another process has the
/// lock, and names that process where the file does; the lock is held exactly
/// where it was taken, and an instance that could not try goes on without it.
pub proof fn only_a_held_lock_stops_an_instance(
    attempt: LockAttempt,
    guard: Result<Guard, AcquireError>,
    holder: u32,
)
    requires
        lock_acquired(attempt, guard),
    ensures
        attempt is Locked ==> guard == Ok::<Guard, AcquireError>(Guard::Hold),
        attempt is NoDirectory || attempt is NoFile || attempt is Unsupported ==> guard == Ok::<
            Guard,
            AcquireError,
        >(Guard::Skip),
        attempt is Contended ==> guard is Err,
        attempt matches LockAttempt::Contended { contents: None } ==> guard == Err::<
            Guard,
            AcquireError,
        >(AcquireError::AlreadyRunning { pid: None }),
        attempt matches LockAttempt::Contended { contents: Some(text) } ==> text@ == decimal(
            holder as nat,
        ) ==> guard == Err::<Guard, AcquireError>(
            AcquireError::AlreadyRunning { pid: Some(holder) },
        ),
{
    if guard is Ok {
        match guard->Ok_0 {
            Guard::Hold => {},
            Guard::Skip => {},
        }
    }
    if let LockAttempt::Contended { contents: Some(text) } = attempt {
        if text@ == decimal(holder as nat) {
            holder_is_named(holder);
        }
    }
}

} // verus!
