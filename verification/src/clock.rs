//! Fresh ids and the time of day, as text.

use vstd::prelude::*;

verus! {

/// The version digit of `id` is 4, and its two variant bits are 1 and 0.
pub open spec fn is_v4(id: u128) -> bool {
    (id >> 76u128) & 0xfu128 == 4u128 && (id >> 62u128) & 3u128 == 2u128
}

/// What `uuid::Uuid::new_v4` draws, as a number: a random id whose version
/// digit is 4 and whose two variant bits are 1 and 0. Nothing else is
/// promised of it, not even that two draws differ.
#[verifier::external_body]
pub(crate) fn new_v4() -> (id: u128)
    ensures
        is_v4(id),
{
    uuid::Uuid::new_v4().as_u128()
}

/// The lower-case hexadecimal digit of `d`.
pub open spec fn hex_digit(d: u128) -> char {
    if d < 10 {
        (('0' as int) + d) as char
    } else {
        (('a' as int) + (d - 10)) as char
    }
}

/// The digit of `id` at `k`, of its 32 hexadecimal ones.
pub open spec fn id_digit(id: u128, k: int) -> char {
    hex_digit((id >> ((4 * (31 - k)) as u128)) & 0xfu128)
}

/// `id` as text: 32 hexadecimal digits in groups of 8, 4, 4, 4 and 12.
pub open spec fn hyphenated(id: u128) -> Seq<char> {
    Seq::new(
        36,
        |i: int|
            if i == 8 || i == 13 || i == 18 || i == 23 {
                '-'
            } else if i < 8 {
                id_digit(id, i)
            } else if i < 13 {
                id_digit(id, i - 1)
            } else if i < 18 {
                id_digit(id, i - 2)
            } else if i < 23 {
                id_digit(id, i - 3)
            } else {
                id_digit(id, i - 4)
            },
    )
}

/// `id` as `uuid::Uuid` displays it: hyphenated, in lower case.
#[verifier::external_body]
pub(crate) fn uuid_text(id: u128) -> (text: String)
    ensures
        text@ == hyphenated(id),
{
    uuid::Uuid::from_u128(id).hyphenated().to_string()
}

/// `text` is the text of an id drawn at random.
pub open spec fn is_fresh_id(text: Seq<char>) -> bool {
    exists|id: u128| text == #[trigger] hyphenated(id) && is_v4(id)
}

/// A fresh id, as text.
pub fn fresh_id() -> (text: String)
    ensures
        is_fresh_id(text@),
{
    let id: u128 = new_v4();
    uuid_text(id)
}

/// What is told where the clock cannot be.
pub const EPOCH: &'static str = "1970-01-01T00:00:00Z";

/// `text` writes an instant of the universal time: the date, a `T`, the time
/// of day and at the end a `Z`, with a fraction of the second before it or
/// without.
pub open spec fn is_utc_instant(text: Seq<char>) -> bool {
    &&& text.len() >= 20
    &&& text.last() == 'Z'
    &&& forall|i: int|
        0 <= i < 19 ==> if i == 4 || i == 7 {
            #[trigger] text[i] == '-'
        } else if i == 10 {
            text[i] == 'T'
        } else if i == 13 || i == 16 {
            text[i] == ':'
        } else {
            '0' <= text[i] <= '9'
        }
}

/// The present instant as `time::OffsetDateTime::now_utc` reads it and
/// `time::format_description::well_known::Rfc3339` writes it, or nothing
/// where the year has no four digits. Which instant it is is not stated: that
/// is up to the clock.
#[verifier::external_body]
fn formatted_now() -> (text: Option<String>)
    ensures
        text matches Some(text) ==> is_utc_instant(text@),
{
    time::OffsetDateTime::now_utc().format(&time::format_description::well_known::Rfc3339).ok()
}

/// The text of an instant as it was written; the epoch where it could not be.
pub fn written_or_epoch(written: Option<String>) -> (text: String)
    ensures
        match written {
            Some(instant) => text == instant,
            None => text@ == EPOCH@,
        },
{
    match written {
        Some(instant) => instant,
        None => EPOCH.to_owned(),
    }
}

/// The present instant; the epoch where it cannot be written.
pub fn rfc3339_now() -> (text: String)
    ensures
        is_utc_instant(text@),
{
    proof {
        reveal_strlit("1970-01-01T00:00:00Z");
    }
    written_or_epoch(formatted_now())
}

} // verus!
