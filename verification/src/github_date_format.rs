//! The wire form of a publication instant: `YYYY-MM-DDTHH:MM:SSZ`.

use std::fmt::Write;
use vstd::prelude::*;

use crate::timestamp::Timestamp;

verus! {

/// The pattern, in `chrono`'s notation, of the instants in a release catalog.
pub const FORMAT: &'static str = "%Y-%m-%dT%H:%M:%SZ";

/// The error that `chrono` reports for a text that it cannot read as an instant.
#[verifier::external_type_specification]
#[verifier::external_body]
pub struct ExParseError(chrono::format::ParseError);

/// A text that is not an instant in the wire form, with what the parser said of it.
#[derive(Clone, Copy, Debug, PartialEq, Eq)]
pub struct MalformedDate {
    pub cause: chrono::format::ParseError,
}

/// What `chrono::NaiveDateTime::parse_from_str` reads from a text under a pattern,
/// taken as an instant in UTC; `None` where it reports an error.
pub uninterp spec fn naive_datetime_parse(text: Seq<char>, pattern: Seq<char>) -> Option<Timestamp>;

/// What `chrono::DateTime::format` writes for the instant at the given seconds and
/// nanoseconds under a pattern; `None` where `chrono` has no such instant or cannot
/// write it under that pattern.
pub uninterp spec fn utc_format(at: Timestamp, pattern: Seq<char>) -> Option<Seq<char>>;

/// Calls `chrono::NaiveDateTime::parse_from_str` and hands back the instant it read,
/// as seconds and nanoseconds in UTC, or its error. The contract claims only that
/// the instant is a function of the text and the pattern.
#[verifier::external_body]
pub(crate) fn parse_naive_utc(text: &str, pattern: &str) -> (parsed: Result<
    Timestamp,
    chrono::format::ParseError,
>)
    ensures
        match parsed {
            Ok(at) => naive_datetime_parse(text@, pattern@) == Some(at),
            Err(_) => naive_datetime_parse(text@, pattern@) is None,
        },
{
    match chrono::NaiveDateTime::parse_from_str(text, pattern) {
        Ok(naive) => {
            let instant = naive.and_utc();
            Ok(Timestamp { secs: instant.timestamp(), nanos: instant.timestamp_subsec_nanos() })
        },
        Err(cause) => Err(cause),
    }
}

/// Calls `chrono::DateTime::from_timestamp` and writes the instant with
/// `chrono::DateTime::format`. The contract claims only that the text is a function
/// of the instant and the pattern.
#[verifier::external_body]
pub(crate) fn format_utc(at: Timestamp, pattern: &str) -> (text: Option<String>)
    ensures
        text.deep_view() == utc_format(at, pattern@),
{
    let instant = chrono::DateTime::from_timestamp(at.secs, at.nanos)?;
    let mut text = String::new();
    match write!(text, "{}", instant.format(pattern)) {
        Ok(()) => Some(text),
        Err(_) => None,
    }
}

/// The instant that a text in the wire form stands for, if it is in that form.
pub open spec fn wire_instant(text: Seq<char>) -> Option<Timestamp> {
    naive_datetime_parse(text, FORMAT@)
}

/// The wire form of an instant, if it has one.
pub open spec fn wire_text(at: Timestamp) -> Option<Seq<char>> {
    utc_format(at, FORMAT@)
}

/// Writes an instant in the wire form. `None` where the instant lies outside what
/// the calendar can express.
pub fn serialize(date: &Timestamp) -> (text: Option<String>)
    ensures
        text.deep_view() == wire_text(*date),
{
    format_utc(*date, FORMAT)
}

/// Reads an instant from its wire form, or says why the text is not one.
pub fn deserialize(text: &str) -> (date: Result<Timestamp, MalformedDate>)
    ensures
        match date {
            Ok(at) => wire_instant(text@) == Some(at),
            Err(_) => wire_instant(text@) is None,
        },
{
    match parse_naive_utc(text, FORMAT) {
        Ok(at) => Ok(at),
        Err(cause) => Err(MalformedDate { cause }),
    }
}

} // verus!
