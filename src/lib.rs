//! Reads loosely written dates and times ("next friday", "3 days ago",
//! "2024-01-05 10:30", "noon") and resolves them against a reference instant
//! that the caller supplies.
//!
//! Text is split into tokens (`token`), the tokens are matched against an ordered
//! list of expression patterns (`grammar`), and the resulting intent is resolved
//! with calendar arithmetic (`resolve`, `calendar`).
use vstd::prelude::*;
use vstd::string::StringSliceAdditionalSpecFns;

pub mod calendar;
pub mod error;
pub mod format;
pub mod grammar;
pub mod laws;
pub mod resolve;
pub mod token;

use crate::calendar::DateTime;
use crate::error::{ErrorKind, ParseError, error_of};
use crate::grammar::{intent_of, match_tokens};
use crate::resolve::{resolution, resolve};
use crate::token::{tokenize, tokens_of};

verus! {

/// What parsing the bytes `s` gives, seen from `now`, with an optional default hour.
pub open spec fn parse_spec(s: Seq<u8>, now: DateTime, default_hour: Option<u8>) -> Result<DateTime, ParseError> {
    match tokens_of(s) {
        Err(e) => Err(e),
        Ok(t) => match intent_of(t) {
            Err(e) => Err(e),
            Ok(intent) => resolution(intent, now, default_hour),
        },
    }
}

fn parse_inner(text: &str, now: DateTime, default_hour: Option<u8>) -> (r: Result<DateTime, ParseError>)
    requires
        now.wf(),
        default_hour matches Some(h) ==> h < 24,
    ensures
        r == parse_spec(text.spec_bytes(), now, default_hour),
        r matches Ok(t) ==> t.wf(),
{
    let tokens = match tokenize(text) {
        Ok(t) => t,
        Err(e) => {
            return Err(e);
        },
    };
    let intent = match match_tokens(&tokens) {
        Ok(i) => i,
        Err(e) => {
            return Err(e);
        },
    };
    resolve(intent, now, default_hour)
}

/// Parses `text` as a date and time seen from `now`; a day given without a time of
/// day is taken at midnight.
pub fn parse(text: &str, now: DateTime) -> (r: Result<DateTime, ParseError>)
    requires
        now.wf(),
    ensures
        r == parse_spec(text.spec_bytes(), now, None),
        r matches Ok(t) ==> t.wf(),
{
    parse_inner(text, now, None)
}

/// Parses `text` as a date and time seen from `now`; a day given without a time of
/// day is taken at `default_hour`:00:00. An hour outside 0 to 23 fails with
/// `OutOfRangeField` before the text is read.
pub fn parse_with_default_time(text: &str, now: DateTime, default_hour: i64) -> (r: Result<DateTime, ParseError>)
    requires
        now.wf(),
    ensures
        0 <= default_hour < 24 ==> r == parse_spec(text.spec_bytes(), now, Some(default_hour as u8)),
        !(0 <= default_hour < 24) ==> r == Err::<DateTime, ParseError>(error_of(ErrorKind::OutOfRangeField)),
        r matches Ok(t) ==> t.wf(),
{
    if default_hour < 0 || default_hour >= 24 {
        return Err(ParseError::new(ErrorKind::OutOfRangeField));
    }
    parse_inner(text, now, Some(default_hour as u8))
}

} // verus!
