//! The text of a countdown: how far a date is from today, in words.
//!
//! The calendar and the wording come from `chrono` and `chrono_humanize`.
//! What they compute is named here, not restated; what this module proves is
//! which of their results the text is made from.
use chrono::{Datelike, Duration, NaiveDate};
use chrono_humanize::{Accuracy, HumanTime, Tense};
use vstd::prelude::*;
use vstd::string::StringExecFns;

verus! {

/// The day number of the date that `text` writes as month, day and year
/// (`%m-%d-%Y`), counted from 1 January of the year 1 as day 1; `None`
/// where `text` writes no date of the calendar in that form.
pub uninterp spec fn day_number_of(text: Seq<char>) -> Option<i32>;

/// A whole number of days in English words, without tense, as precise as
/// the words allow.
pub uninterp spec fn humanized(days: i64) -> Seq<char>;

/// Why a countdown has no text.
#[derive(PartialEq, Eq, Structural, Clone, Copy, Debug)]
pub enum CountdownError {
    /// No date was given.
    MissingDate,
    /// What was given writes no date.
    InvalidDate,
}

/// The sentence that reports `e`.
pub open spec fn countdown_message_of(e: CountdownError) -> Seq<char> {
    match e {
        CountdownError::MissingDate => "param 0 is req'd"@,
        CountdownError::InvalidDate => "invalid date"@,
    }
}

impl CountdownError {
    /// The sentence that reports this error.
    pub fn message(&self) -> (r: String)
        ensures
            r@ == countdown_message_of(*self),
    {
        match self {
            CountdownError::MissingDate => String::from_str("param 0 is req'd"),
            CountdownError::InvalidDate => String::from_str("invalid date"),
        }
    }
}

/// Calls `chrono::NaiveDate::parse_from_str` with the format `%m-%d-%Y`,
/// and `Datelike::num_days_from_ce` on the date it gives. Not proved: that
/// the result depends on the text alone, which is what naming it
/// [`day_number_of`] claims.
#[verifier::external_body]
fn parse_day_number(text: &str) -> (r: Option<i32>)
    ensures
        r == day_number_of(text@),
{
    match NaiveDate::parse_from_str(text, "%m-%d-%Y") {
        Ok(date) => Some(date.num_days_from_ce()),
        Err(_) => None,
    }
}

/// Calls `chrono_humanize::HumanTime::to_text_en`, precise and in the
/// present tense, on a `chrono::Duration` of `days` days. Not proved: that
/// the text depends on the number of days alone, which is what naming it
/// [`humanized`] claims. The bound keeps the duration inside what
/// `Duration::days` takes without a panic.
#[verifier::external_body]
fn humanize_days(days: i64) -> (r: String)
    requires
        -0x1_0000_0000 <= days <= 0x1_0000_0000,
    ensures
        r@ == humanized(days),
{
    HumanTime::from(Duration::days(days)).to_text_en(Accuracy::Precise, Tense::Present)
}

/// The days from `today` to the date with the day number `date`: negative
/// where the date has passed. A date that could not be read is refused.
pub fn days_until(date: Option<i32>, today: i32) -> (r: Result<i64, CountdownError>)
    ensures
        r == match date {
            Some(d) => Ok::<i64, CountdownError>((d - today) as i64),
            None => Err::<i64, CountdownError>(CountdownError::InvalidDate),
        },
{
    match date {
        Some(d) => Ok(d as i64 - today as i64),
        None => Err(CountdownError::InvalidDate),
    }
}

/// The text of the countdown to `date`, written as month, day and year, on
/// the day with the number `today`: the days between the two in words.
pub fn countdown_text(date: Option<&str>, today: i32) -> (r: Result<String, CountdownError>)
    ensures
        match date {
            None => r == Err::<String, CountdownError>(CountdownError::MissingDate),
            Some(text) => match day_number_of(text@) {
                None => r == Err::<String, CountdownError>(CountdownError::InvalidDate),
                Some(d) => r matches Ok(words) && words@ == humanized((d - today) as i64),
            },
        },
{
    let text = match date {
        Some(text) => text,
        None => {
            return Err(CountdownError::MissingDate);
        },
    };
    match days_until(parse_day_number(text), today) {
        Ok(days) => Ok(humanize_days(days)),
        Err(e) => Err(e),
    }
}

} // verus!
