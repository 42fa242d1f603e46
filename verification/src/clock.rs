use vstd::prelude::*;
use chrono::Offset;
use crate::cron::{all_digits, digits_value};

verus! {

/// Calls chrono's `Local::now()` and reads the offset of local time from UTC through
/// `offset().fix().local_minus_utc()`. Claimed: the value lies strictly between -86400
/// and 86400 seconds, the only values a chrono `FixedOffset` can hold. Which value comes
/// back depends on the machine's time zone and the date, and is left unsaid.
#[verifier::external_body]
pub(crate) fn local_utc_offset_seconds() -> (secs: i32)
    ensures
        -86400 < secs < 86400,
{
    chrono::Local::now().offset().fix().local_minus_utc()
}

/// A date as chrono writes it with `"%Y-%m-%d"`: the year as an optional sign and
/// at least four digits, a `-`, the month as two digits from `01` to `12`, a `-`,
/// and the day of the month as two digits from `01` to `31`.
pub open spec fn is_ymd_date(s: Seq<char>) -> bool {
    let n = s.len() as int;
    let year = s.take(n - 6);
    let digits = if year.len() > 0 && (year[0] == '+' || year[0] == '-') {
        year.drop_first()
    } else {
        year
    };
    let month = s.subrange(n - 5, n - 3);
    let day = s.subrange(n - 2, n);
    &&& n >= 10
    &&& digits.len() >= 4
    &&& all_digits(digits)
    &&& s[n - 6] == '-'
    &&& s[n - 3] == '-'
    &&& all_digits(month)
    &&& 1 <= digits_value(month) <= 12
    &&& all_digits(day)
    &&& 1 <= digits_value(day) <= 31
}

/// Calls chrono's `Local::now()` and formats the date with `"%Y-%m-%d"`. Claimed:
/// the text has the shape that chrono documents for these specifiers
/// (`is_ymd_date`). Which date it is depends on the clock and on the machine's
/// time zone, and is left unsaid.
#[verifier::external_body]
pub(crate) fn local_date_today() -> (date: String)
    ensures
        is_ymd_date(date@),
{
    chrono::Local::now().format("%Y-%m-%d").to_string()
}

} // verus!
