//! Shared helpers of the pages: date formatting and the error pages' data.
use vstd::prelude::*;

verus! {

/// The layout of dates on the pages.
pub const FORMAT: &'static str = "%Y-%m-%d %H:%M:%S";

/// What `chrono::DateTime::from_timestamp(ts, 0)`, shown in the
/// `chrono_tz::Hongkong` zone with `format(fmt)`, renders: `None` when `ts`
/// is outside chrono's range.
pub uninterp spec fn hong_kong_time_text(ts: i64, fmt: Seq<char>) -> Option<Seq<char>>;

/// Renders the instant `ts` (seconds since the Unix epoch) as local time in
/// Hong Kong with chrono and chrono-tz; stated only through
/// `hong_kong_time_text`. Only the pages' `FORMAT` is admitted: a text that
/// is not valid strftime makes chrono's rendering fail, and `to_string`
/// panic.
#[verifier::external_body]
fn hong_kong_time(ts: i64, fmt: &str) -> (r: Option<String>)
    requires
        fmt@ == FORMAT@,
    ensures
        r.deep_view() == hong_kong_time_text(ts, fmt@),
{
    match chrono::DateTime::from_timestamp(ts, 0) {
        Some(d) => Some(d.with_timezone(&chrono_tz::Hongkong).format(fmt).to_string()),
        None => None,
    }
}

/// The text shown for a creation instant `ts`: Hong Kong local time in the
/// pages' `FORMAT`. An instant outside chrono's range (none that is stored
/// can be) shows as the empty string.
pub fn format_date_time(ts: i64) -> (r: String)
    ensures
        r@ == match hong_kong_time_text(ts, FORMAT@) {
            Some(t) => t,
            None => Seq::empty(),
        },
{
    match hong_kong_time(ts, FORMAT) {
        Some(t) => t,
        None => String::new(),
    }
}

/// The data of the error page.
#[derive(Debug, Clone)]
pub struct ErrorMessage {
    pub error_msg: String,
}

/// The data of the page shown for a missing page.
#[derive(Debug, Clone)]
pub struct NotFoundMessage {
    pub msg: String,
}

} // verus!
