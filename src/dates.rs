//! Due dates: reading and writing them as `dd.mm.yyyy` text through chrono,
//! and the day arithmetic that the list's views need.
use vstd::prelude::*;

verus! {

/// Seconds in a day.
pub const SECONDS_PER_DAY: i64 = 86400;

/// Seconds in a week.
pub const SECONDS_PER_WEEK: i64 = 604800;

/// The moment, in seconds since the Unix epoch (UTC), of midnight at the
/// start of the day `text` names in the form `dd.mm.yyyy`; `None` where
/// chrono does not read it as such a date.
pub uninterp spec fn parsed_due_date(text: Seq<char>) -> Option<i64>;

/// The day of the moment `secs` (seconds since the Unix epoch, UTC) written
/// as `dd.mm.yyyy`; `None` where chrono cannot represent that moment.
pub uninterp spec fn formatted_due_date(secs: i64) -> Option<Seq<char>>;

/// Relies on chrono's `NaiveDateTime::parse_from_str` with the format
/// `%d.%m.%Y %H:%M:%SZ` on the text followed by a midnight time, and on
/// `timestamp` of the result taken as UTC: its value depends on the text alone.
#[verifier::external_body]
pub(crate) fn parse_due_date(text: &str) -> (r: Option<i64>)
    ensures
        r == parsed_due_date(text@),
{
    let full = format!("{} 00:00:00Z", text);
    match chrono::NaiveDateTime::parse_from_str(full.as_str(), "%d.%m.%Y %H:%M:%SZ") {
        Ok(moment) => Some(moment.and_utc().timestamp()),
        Err(_) => None,
    }
}

/// Relies on chrono's `DateTime::<Utc>::from_timestamp` and on `format` with
/// `%d.%m.%Y`: the text depends on the moment alone.
#[verifier::external_body]
pub(crate) fn format_due_date(secs: i64) -> (r: Option<String>)
    ensures
        match r {
            Some(s) => formatted_due_date(secs) == Some(s@),
            None => formatted_due_date(secs) is None,
        },
{
    match chrono::DateTime::<chrono::Utc>::from_timestamp(secs, 0) {
        Some(moment) => Some(moment.format("%d.%m.%Y").to_string()),
        None => None,
    }
}

/// The text shown for a due date: its day as `dd.mm.yyyy`, or nothing where
/// the moment has no such text.
pub open spec fn due_date_shown(secs: i64) -> Seq<char> {
    match formatted_due_date(secs) {
        Some(text) => text,
        None => Seq::empty(),
    }
}

/// The day of the moment `secs` (seconds since the Unix epoch, UTC) as
/// `dd.mm.yyyy`, or an empty text where chrono cannot represent the moment.
pub fn due_date_text(secs: i64) -> (r: String)
    ensures
        r@ == due_date_shown(secs),
{
    match format_due_date(secs) {
        Some(text) => text,
        None => String::new(),
    }
}

/// Midnight (UTC) at the start of the day that holds the moment `t`.
pub open spec fn day_start(t: int) -> int {
    t - t % (SECONDS_PER_DAY as int)
}

/// Midnight (UTC) at the start of the day that holds the moment `now`.
pub fn start_of_day(now: i64) -> (r: i128)
    ensures
        r as int == day_start(now as int),
{
    let rem: i64 = now % SECONDS_PER_DAY;
    let rem: i64 = if rem < 0 { rem + SECONDS_PER_DAY } else { rem };
    assert(rem as int == (now as int) % (SECONDS_PER_DAY as int));
    (now as i128) - (rem as i128)
}

} // verus!
