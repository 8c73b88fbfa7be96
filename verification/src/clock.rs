//! Dates and times, as the `chrono` crate holds and formats them.

use chrono::NaiveDateTime;
use chrono::Utc;
use vstd::prelude::*;

verus! {

/// `NaiveDateTime` of `chrono`: a date and a time of day, without a time
/// zone. Nothing of its inside is known here; it is handed on to `chrono`.
#[verifier::external_type_specification]
#[verifier::external_body]
pub struct ExNaiveDateTime(chrono::NaiveDateTime);

/// The text that `chrono` writes for the date and time `now` under the
/// strftime-like format `date_fmt`, or `None` where it cannot write it: the
/// format is invalid, or asks for what a date and time without a zone lacks.
pub uninterp spec fn date_text(now: NaiveDateTime, date_fmt: Seq<char>) -> Option<Seq<char>>;

/// `NaiveDateTime::format` of `chrono`, written out by `DelayedFormat::write_to`:
/// the text for `now` under `date_fmt`, or `None` where writing it fails. The
/// outcome depends on `now` and `date_fmt` alone; `date_text` names it.
#[verifier::external_body]
pub(crate) fn format_date(now: &NaiveDateTime, date_fmt: &str) -> (text: Option<String>)
    ensures
        text matches Some(t) ==> date_text(*now, date_fmt@) == Some(t@),
        text is None ==> date_text(*now, date_fmt@) is None,
{
    let mut text = String::new();
    match now.format(date_fmt).write_to(&mut text) {
        Ok(()) => Some(text),
        Err(_) => None,
    }
}

/// `Utc::now` of `chrono`: the current date and time in UTC, read from the
/// system clock, which `chrono` expects not to stand before 1970. Nothing is
/// stated of the value: two readings may differ.
#[verifier::external_body]
pub fn current_local_date_time() -> NaiveDateTime {
    Utc::now().naive_utc()
}

} // verus!
