//! Human-readable modification dates.
//!
//! A page's date is derived from the last-modified time of its source file,
//! given as whole seconds since the Unix epoch. When no timestamp is
//! available, or it lies outside the range the calendar library accepts,
//! the sentinel `Unknown` takes its place.

use vstd::prelude::*;
use vstd::string::StringExecFns;

verus! {

/// Timestamps within this many seconds of the epoch are guaranteed to
/// format; the bound stays well inside the year range chrono's `NaiveDate`
/// covers (about 262000 years either way).
pub const TS_BOUND: i64 = 8_000_000_000_000;

/// The text that `day.month.year hour:minute` formatting produces for a
/// timestamp of whole seconds since the Unix epoch.
pub uninterp spec fn date_display_of(secs: i64) -> Seq<char>;

/// The date text recorded for a page: the formatted timestamp when one is
/// available and in range, the `Unknown` sentinel otherwise.
pub open spec fn date_seq(mtime: Option<i64>) -> Seq<char> {
    match mtime {
        Option::Some(s) => if -TS_BOUND <= s && s <= TS_BOUND {
            date_display_of(s)
        } else {
            "Unknown"@
        },
        Option::None => "Unknown"@,
    }
}

/// Relies on chrono's `DateTime::from_timestamp` and `%-d.%m.%Y %H:%M`
/// formatting: the text is a function of the seconds alone, and a timestamp
/// within `TS_BOUND` of the epoch is far inside the range that
/// `from_timestamp` accepts.
#[verifier::external_body]
fn format_timestamp(secs: i64) -> (r: String)
    requires
        -TS_BOUND <= secs <= TS_BOUND,
    ensures
        r@ == date_display_of(secs),
{
    match chrono::DateTime::from_timestamp(secs, 0) {
        Some(dt) => dt.format("%-d.%m.%Y %H:%M").to_string(),
        None => String::new(),
    }
}

/// Formats a page's last-modified timestamp, substituting the `Unknown`
/// sentinel when none is available or it is out of range.
pub fn page_date(mtime: Option<i64>) -> (r: String)
    ensures
        r@ == date_seq(mtime),
{
    match mtime {
        Option::Some(s) => {
            if -TS_BOUND <= s && s <= TS_BOUND {
                format_timestamp(s)
            } else {
                String::from_str("Unknown")
            }
        },
        Option::None => String::from_str("Unknown"),
    }
}

} // verus!
