//! What comes from outside: the clock, times, and identifiers and their texts.

use crate::thread_id::ThreadId;
use crate::time::is_datetime_millis;
use crate::time::is_time;
use vstd::prelude::*;

verus! {

/// `chrono::Utc::now`, as milliseconds since the Unix epoch. Nothing is claimed of the value: it
/// is whatever the machine's clock says.
#[verifier::external_body]
pub(crate) fn now_millis() -> (now: i64) {
    chrono::Utc::now().timestamp_millis()
}

/// `uuid::Uuid::new_v4`, as hyphenated text. Nothing is claimed of the value: it is random.
#[verifier::external_body]
pub(crate) fn new_identifier() -> (id: String) {
    uuid::Uuid::new_v4().to_string()
}

/// `chrono::DateTime::<Utc>::from_timestamp_millis`: there is a time for the number of
/// milliseconds exactly in the years that `chrono::NaiveDate` spans.
#[verifier::external_body]
pub(crate) fn fits_datetime(millis: i64) -> (fits: bool)
    ensures
        fits == is_datetime_millis(millis),
{
    chrono::DateTime::<chrono::Utc>::from_timestamp_millis(millis).is_some()
}

/// `chrono::DateTime::<Utc>::from_timestamp` without nanoseconds: there is a time for the number
/// of seconds exactly in the years that `chrono::NaiveDate` spans.
#[verifier::external_body]
pub(crate) fn fits_timestamp(seconds: i64) -> (fits: bool)
    ensures
        fits == is_time(seconds, 0),
{
    chrono::DateTime::<chrono::Utc>::from_timestamp(seconds, 0).is_some()
}

/// The last `n` hexadecimal digits of a value, in lower case.
pub open spec fn hex_text(value: nat, n: nat) -> Seq<char>
    decreases n,
{
    if n == 0 {
        Seq::empty()
    } else {
        hex_text(value / 16, (n - 1) as nat).push(
            seq!['0', '1', '2', '3', '4', '5', '6', '7', '8', '9', 'a', 'b', 'c', 'd', 'e', 'f'][(value % 16) as int],
        )
    }
}

/// The text of a UUID: its digits in groups of 8, 4, 4, 4 and 12 with hyphens between them.
pub open spec fn uuid_text(value: u128) -> Seq<char> {
    let digits = hex_text(value as nat, 32);
    digits.subrange(0, 8) + (seq!['-'] + (digits.subrange(8, 12) + (seq!['-'] + (digits.subrange(12, 16) + (seq!['-'] + (digits.subrange(16, 20) + (seq![
        '-',
    ] + digits.subrange(20, 32))))))))
}

/// `uuid::Uuid::from_u128`, written with `to_string`: all 32 digits in lower case, the most
/// significant first, hyphenated.
#[verifier::external_body]
pub(crate) fn thread_id_text(id: ThreadId) -> (text: String)
    ensures
        text@ == uuid_text(id.value),
{
    uuid::Uuid::from_u128(id.value).to_string()
}

/// Name for the value that `uuid::Uuid::parse_str` reads from a text, if it is that of a UUID.
pub uninterp spec fn parsed_uuid(text: Seq<char>) -> Option<u128>;

/// `uuid::Uuid::parse_str`: what is read depends on the text alone, and from the hyphenated text
/// of a UUID its value is read. Which other texts are read is not stated.
#[verifier::external_body]
pub(crate) fn parse_thread_id(text: &str) -> (id: Option<ThreadId>)
    ensures
        match id {
            Some(id) => parsed_uuid(text@) == Some(id.value),
            None => parsed_uuid(text@) is None,
        },
        forall|value: u128| text@ == #[trigger] uuid_text(value) ==> id == Some(ThreadId { value }),
{
    match uuid::Uuid::parse_str(text) {
        Ok(id) => Some(ThreadId { value: id.as_u128() }),
        Err(_) => None,
    }
}

} // verus!
