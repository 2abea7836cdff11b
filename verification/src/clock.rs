use vstd::prelude::*;

verus! {

/// What the calendar rendering of a moment in time looks like at minute
/// precision; the result depends on the timestamp alone.
pub uninterp spec fn minute_display(ts: int) -> Seq<char>;

/// Relies on chrono's `Utc::now`: the current time, as whole seconds since
/// the Unix epoch. Nothing is promised of a clock reading.
#[verifier::external_body]
pub(crate) fn now_ts() -> i64 {
    chrono::Utc::now().timestamp()
}

/// Relies on chrono's `DateTime::from_timestamp` and on its `%Y-%m-%d %H:%M`
/// formatting, which render a timestamp as a UTC calendar date and a
/// minute-precision clock reading; both depend on `ts` alone.
#[verifier::external_body]
pub(crate) fn fmt_minute(ts: i64) -> (r: String)
    ensures
        r@ == minute_display(ts as int),
{
    match chrono::DateTime::from_timestamp(ts, 0) {
        Some(moment) => moment.format("%Y-%m-%d %H:%M").to_string(),
        None => String::new(),
    }
}

} // verus!
