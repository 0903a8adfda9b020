//! Cron expressions, as the `cron` crate reads them.
use vstd::prelude::*;

verus! {

/// Whether `Schedule::from_str` of the `cron` crate accepts the expression.
pub uninterp spec fn cron_accepts(expr: Seq<char>) -> bool;

/// The first time after `after_ms` (milliseconds since the Unix epoch, UTC) at
/// which the schedule parsed from `expr` fires, as `Schedule::after` yields it.
pub uninterp spec fn cron_next_after(expr: Seq<char>, after_ms: i64) -> Option<i64>;

/// The first millisecond of the last second that `chrono` can represent,
/// 262142-12-31T23:59:59Z.
pub open spec fn last_second_ms() -> int {
    8_210_266_876_799_000
}

/// An instant (milliseconds since the epoch) from which the `cron` crate can
/// search: all but the last second of `chrono`'s range. The search starts one
/// second after the instant, and `DateTime + TimeDelta` panics when that
/// second lies past `chrono`'s last date; instants beyond the range are not
/// dates at all, and nothing follows them.
pub open spec fn valid_instant(ms: int) -> bool {
    !(last_second_ms() <= ms < last_second_ms() + 1000)
}

/// Whether the `cron` crate can search from an instant.
pub fn valid_instant_ms(ms: i64) -> (b: bool)
    ensures
        b == valid_instant(ms as int),
{
    ms < 8_210_266_876_799_000 || ms >= 8_210_266_876_800_000
}

/// `Schedule::from_str` of the `cron` crate: whether the expression parses.
/// What the grammar accepts is not restated here; it is named.
#[verifier::external_body]
pub(crate) fn cron_parses(expr: &str) -> (ok: bool)
    ensures
        ok == cron_accepts(expr@),
{
    <cron::Schedule as std::str::FromStr>::from_str(expr).is_ok()
}

/// The next firing of the schedule parsed from `expr` strictly after
/// `after_ms`: `Schedule::after(&t).next()` in UTC, in milliseconds. The
/// `cron` source starts the search one second after `t` and builds each
/// candidate from whole seconds, so a result is later than `after_ms` and a
/// whole number of seconds; an expression that does not parse has none.
#[verifier::external_body]
pub(crate) fn cron_next(expr: &str, after_ms: i64) -> (r: Option<i64>)
    requires
        valid_instant(after_ms as int),
    ensures
        r == cron_next_after(expr@, after_ms),
        r matches Some(n) ==> n > after_ms && n % 1000 == 0,
        !cron_accepts(expr@) ==> r is None,
{
    let schedule = <cron::Schedule as std::str::FromStr>::from_str(expr).ok()?;
    let after = chrono::DateTime::from_timestamp_millis(after_ms)?;
    schedule.after(&after).next().map(|t| t.timestamp_millis())
}

} // verus!
