//! What the library takes from the `chrono` crate: its calendar types, which
//! are carried through unread, and its readers of dates and times.
//!
//! What a reader returns for a text and a layout is decided by `chrono` alone;
//! it is given a name here, so that the contracts of the converters can say
//! which reading they return.

use vstd::prelude::*;

verus! {

/// `chrono::NaiveDate`, a calendar date without a time zone.
#[verifier::external_type_specification]
#[verifier::external_body]
pub struct ExNaiveDate(chrono::NaiveDate);

/// `chrono::NaiveTime`, a time of day without a time zone.
#[verifier::external_type_specification]
#[verifier::external_body]
pub struct ExNaiveTime(chrono::NaiveTime);

/// `chrono::NaiveDateTime`, a date with a time of day, without a time zone.
#[verifier::external_type_specification]
#[verifier::external_body]
pub struct ExNaiveDateTime(chrono::NaiveDateTime);

/// What `chrono::NaiveDateTime::parse_from_str` reads from `text` under
/// `layout`; `None` where it reports an error.
pub uninterp spec fn chrono_datetime(text: Seq<char>, layout: Seq<char>) -> Option<
    chrono::NaiveDateTime,
>;

/// What `chrono::DateTime::parse_from_str` reads from `text` under `layout`,
/// taken as the date and time in UTC; `None` where it reports an error.
pub uninterp spec fn chrono_datetime_utc(text: Seq<char>, layout: Seq<char>) -> Option<
    chrono::NaiveDateTime,
>;

/// What `chrono::NaiveDate::parse_from_str` reads from `text` under `layout`;
/// `None` where it reports an error.
pub uninterp spec fn chrono_date(text: Seq<char>, layout: Seq<char>) -> Option<chrono::NaiveDate>;

/// What `chrono::NaiveTime::parse_from_str` reads from `text` under `layout`;
/// `None` where it reports an error.
pub uninterp spec fn chrono_time(text: Seq<char>, layout: Seq<char>) -> Option<chrono::NaiveTime>;

/// Calls `chrono::NaiveDateTime::parse_from_str` and drops the error's detail.
/// The result depends on the text and the layout alone; nothing more is
/// claimed of it.
#[verifier::external_body]
pub(crate) fn read_datetime(text: &str, layout: &str) -> (r: Option<chrono::NaiveDateTime>)
    ensures
        r == chrono_datetime(text@, layout@),
{
    chrono::NaiveDateTime::parse_from_str(text, layout).ok()
}

/// Calls `chrono::DateTime::parse_from_str`, which asks for an offset from
/// UTC in the text, and `chrono::DateTime::naive_utc` on what it read; the
/// error's detail is dropped. The result depends on the text and the layout
/// alone; nothing more is claimed of it.
#[verifier::external_body]
pub(crate) fn read_datetime_utc(text: &str, layout: &str) -> (r: Option<chrono::NaiveDateTime>)
    ensures
        r == chrono_datetime_utc(text@, layout@),
{
    chrono::DateTime::parse_from_str(text, layout).ok().map(|moment| moment.naive_utc())
}

/// Calls `chrono::NaiveDate::parse_from_str` and drops the error's detail. The
/// result depends on the text and the layout alone; nothing more is claimed
/// of it.
#[verifier::external_body]
pub(crate) fn read_date(text: &str, layout: &str) -> (r: Option<chrono::NaiveDate>)
    ensures
        r == chrono_date(text@, layout@),
{
    chrono::NaiveDate::parse_from_str(text, layout).ok()
}

/// Calls `chrono::NaiveTime::parse_from_str` and drops the error's detail. The
/// result depends on the text and the layout alone; nothing more is claimed
/// of it.
#[verifier::external_body]
pub(crate) fn read_time(text: &str, layout: &str) -> (r: Option<chrono::NaiveTime>)
    ensures
        r == chrono_time(text@, layout@),
{
    chrono::NaiveTime::parse_from_str(text, layout).ok()
}

} // verus!
