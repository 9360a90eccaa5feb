//! Spans of time, points in time, and how the service reads, computes and
//! shows them.

use vstd::prelude::*;

use crate::span;
use crate::text;

verus! {

/// Nanoseconds in a second.
pub open spec fn second() -> int {
    1_000_000_000
}

/// A span of time, to the nanosecond. It can be negative: `nanos` is what has
/// to be added to whole seconds that are rounded down.
#[derive(Clone, Copy, Debug, PartialEq, Eq, Structural)]
pub struct TimeDelta {
    pub secs: i64,
    pub nanos: u32,
}

impl TimeDelta {
    /// The span in nanoseconds.
    pub open spec fn total(self) -> int {
        self.secs * second() + self.nanos
    }

    pub open spec fn wf(self) -> bool {
        self.nanos < second() && delta_fits(self.total())
    }
}

/// A span can be as long as `i64::MAX` milliseconds, either way.
pub open spec fn delta_fits(nanos: int) -> bool {
    -(i64::MAX * 1_000_000) <= nanos <= i64::MAX * 1_000_000
}

/// A point in time: seconds since the Unix epoch, rounded down, and the
/// nanoseconds after that.
#[derive(Clone, Copy, Debug, PartialEq, Eq, Structural)]
pub struct Timestamp {
    pub secs: i64,
    pub nanos: u32,
}

impl Timestamp {
    /// Nanoseconds since the Unix epoch.
    pub open spec fn total(self) -> int {
        self.secs * second() + self.nanos
    }

    pub open spec fn wf(self) -> bool {
        self.nanos < second() && instant_fits(self.total())
    }
}

/// Points in time reach from the beginning of the year -262143 to the end of
/// the year 262142.
pub open spec fn instant_fits(nanos: int) -> bool {
    -8_334_601_228_800 * second() <= nanos < 8_210_266_876_800 * second()
}

/// What the text stands for as a span of time, in seconds and nanoseconds, or
/// why it does not stand for any.
pub uninterp spec fn parsed_duration(input: Seq<char>) -> Result<(u64, u32), Seq<char>>;

/// Reads a span such as `1hour 12min 5s` with humantime's `parse_duration`; an
/// error is given by its message. The result is a function of the text alone,
/// which `parsed_duration` names; the nanoseconds are below a second. The
/// parser panics when its sum comes to `u64::MAX` seconds and exactly a second's
/// worth of nanoseconds, which is on no readable text.
#[verifier::external_body]
fn humantime_parse(input: &str) -> (out: Result<(u64, u32), String>)
    requires
        span::readable(input@),
    ensures
        match out {
            Ok((secs, nanos)) => parsed_duration(input@) == Ok::<(u64, u32), Seq<char>>(
                (secs, nanos),
            ) && nanos < second(),
            Err(e) => parsed_duration(input@) == Err::<(u64, u32), Seq<char>>(e@),
        },
{
    match humantime::parse_duration(input) {
        Ok(duration) => Ok((duration.as_secs(), duration.subsec_nanos())),
        Err(e) => Err(e.to_string()),
    }
}

/// Makes a span out of seconds and nanoseconds with chrono's
/// `TimeDelta::from_std`, which refuses exactly what is longer than
/// `i64::MAX` milliseconds.
#[verifier::external_body]
fn delta_from_std(secs: u64, nanos: u32) -> (out: Option<TimeDelta>)
    requires
        nanos < second(),
    ensures
        out is Some <==> delta_fits(secs * second() + nanos),
        out matches Some(delta) ==> delta.wf() && delta.total() == secs * second() + nanos,
{
    match chrono::TimeDelta::from_std(std::time::Duration::new(secs, nanos)) {
        Ok(d) => Some(TimeDelta { secs: d.num_seconds(), nanos: d.subsec_nanos() as u32 }),
        Err(_) => None,
    }
}

/// Adds a span to a point in time with chrono's
/// `DateTime::checked_add_signed`, which gives the sum if it is in range.
#[verifier::external_body]
fn datetime_add(at: Timestamp, delta: TimeDelta) -> (out: Option<Timestamp>)
    requires
        at.wf(),
        delta.wf(),
    ensures
        out is Some <==> instant_fits(at.total() + delta.total()),
        out matches Some(sum) ==> sum.wf() && sum.total() == at.total() + delta.total(),
{
    let start = chrono::DateTime::from_timestamp(at.secs, at.nanos)?;
    let sum = start.checked_add_signed(chrono::TimeDelta::new(delta.secs, delta.nanos)?)?;
    Some(Timestamp { secs: sum.timestamp(), nanos: sum.timestamp_subsec_nanos() })
}

/// Whether a parsed span is one that a bucket can have: any error is passed
/// on, but a span that is too long cannot be used.
pub open spec fn usable_span(parsed: Result<(u64, u32), Seq<char>>) -> bool {
    match parsed {
        Ok((secs, nanos)) => nanos < second() && delta_fits(secs * second() + nanos),
        Err(_) => true,
    }
}

/// Turns what was parsed into a span of time.
pub fn parsed_timedelta(parsed: Result<(u64, u32), String>) -> (out: Option<
    Result<TimeDelta, String>,
>)
    requires
        parsed matches Ok((_, nanos)) ==> nanos < second(),
    ensures
        match parsed {
            Ok((secs, nanos)) => if delta_fits(secs * second() + nanos) {
                out matches Some(Ok(delta)) && delta.wf() && delta.total() == secs * second()
                    + nanos
            } else {
                out is None
            },
            Err(e) => out matches Some(Err(why)) && why@ == e@,
        },
{
    match parsed {
        Ok((secs, nanos)) => match delta_from_std(secs, nanos) {
            Some(delta) => Some(Ok(delta)),
            None => None,
        },
        Err(e) => Some(Err(e)),
    }
}

/// Reads a span of time as people write it, such as `30days`.
pub fn parse_timedelta(input: &str) -> (out: Result<TimeDelta, String>)
    requires
        span::readable(input@),
        usable_span(parsed_duration(input@)),
    ensures
        match parsed_duration(input@) {
            Ok((secs, nanos)) => out matches Ok(delta) && delta.wf() && delta.total() == secs
                * second() + nanos,
            Err(e) => out matches Err(why) && why@ == e,
        },
{
    match parsed_timedelta(humantime_parse(input)) {
        Some(out) => out,
        None => Err(String::new()),
    }
}

/// Reads a span of time as people write it, or gives nothing if its sum lands on
/// what cannot be dealt with or is longer than a `TimeDelta` can be.
pub fn try_parse_timedelta(input: &str) -> (out: Option<Result<TimeDelta, String>>)
    ensures
        out is Some <==> span::readable(input@) && usable_span(parsed_duration(input@)),
        out matches Some(result) ==> match parsed_duration(input@) {
            Ok((secs, nanos)) => result matches Ok(delta) && delta.wf() && delta.total() == secs
                * second() + nanos,
            Err(e) => result matches Err(why) && why@ == e,
        },
{
    if !span::is_readable(input) {
        return None;
    }
    let parsed = humantime_parse(input);
    if parsed_timedelta(parsed).is_none() {
        return None;
    }
    Some(parse_timedelta(input))
}

/// The span that a Postgres interval stands for, a month being thirty days and
/// a day twenty-four hours. This is not what a calendar says, but it is only
/// for throwing away some build logs.
pub open spec fn interval_nanos(months: i32, days: i32, microseconds: i64) -> int {
    (months * 30 + days) * 86_400 * second() + microseconds * 1_000
}

/// Turns a Postgres interval into a span of time.
pub fn interval_delta(months: i32, days: i32, microseconds: i64) -> (out: TimeDelta)
    ensures
        out.wf(),
        out.total() == interval_nanos(months, days, microseconds),
{
    let all_days: i64 = months as i64 * 30 + days as i64;
    let (whole, rest): (i64, i64) = if microseconds >= 0 {
        (microseconds / 1_000_000, microseconds % 1_000_000)
    } else {
        let below: i64 = -(microseconds + 1);
        (-(below / 1_000_000) - 1, 999_999 - below % 1_000_000)
    };
    TimeDelta { secs: all_days * 86_400 + whole, nanos: (rest * 1_000) as u32 }
}

/// Whether a file made at `now` can be given the time to live `ttl`: the time
/// at which it runs out has to be a point in time.
pub open spec fn expiry_fits(now: Timestamp, ttl: Option<TimeDelta>) -> bool {
    ttl matches Some(delta) ==> instant_fits(now.total() + delta.total())
}

/// Says whether the time to live runs out at a point in time.
pub fn can_expire(now: Timestamp, ttl: Option<TimeDelta>) -> (yes: bool)
    requires
        now.wf(),
        ttl matches Some(delta) ==> delta.wf(),
    ensures
        yes == expiry_fits(now, ttl),
{
    match ttl {
        Some(delta) => datetime_add(now, delta).is_some(),
        None => true,
    }
}

/// When a file made at `now` is to be deleted: `ttl` later, or never if there
/// is none.
pub fn delete_after(now: Timestamp, ttl: Option<TimeDelta>) -> (out: Option<Timestamp>)
    requires
        now.wf(),
        ttl matches Some(delta) ==> delta.wf(),
        expiry_fits(now, ttl),
    ensures
        out is Some <==> ttl is Some,
        out matches Some(at) ==> at.wf() && at.total() == now.total() + ttl->0.total(),
{
    match ttl {
        Some(delta) => datetime_add(now, delta),
        None => None,
    }
}

/// How HTTP shows the point in time `secs` seconds after the Unix epoch, such
/// as `Thu, 01 Jan 1970 00:00:00 GMT`.
pub uninterp spec fn http_date_text(secs: u64) -> Seq<char>;

/// HTTP can show points in time from the Unix epoch up to the year 10000.
pub open spec fn http_date_fits(at: Timestamp) -> bool {
    0 <= at.secs < 253_402_300_800
}

/// Says whether HTTP can show a point in time.
pub fn has_http_date(at: Timestamp) -> (yes: bool)
    ensures
        yes == http_date_fits(at),
{
    0 <= at.secs && at.secs < 253_402_300_800
}

/// Shows a number of seconds since the Unix epoch with httpdate's `HttpDate`,
/// as an IMF-fixdate: 29 printable characters, which `http_date_text` names.
/// It panics from the year 10000 on.
#[verifier::external_body]
fn httpdate_format(secs: u64) -> (out: String)
    requires
        secs < 253_402_300_800,
    ensures
        out@ == http_date_text(secs),
        out@.len() == 29,
        text::all_printable(out@),
{
    let at = std::time::UNIX_EPOCH + std::time::Duration::from_secs(secs);
    httpdate::HttpDate::from(at).to_string()
}

/// Shows a point in time as HTTP headers do, to the second.
pub fn http_date(at: Timestamp) -> (out: String)
    requires
        http_date_fits(at),
    ensures
        out@ == http_date_text(at.secs as u64),
        text::all_printable(out@),
{
    httpdate_format(at.secs as u64)
}

/// A month counts as thirty days, a day as twenty-four hours, and a microsecond
/// as a thousand nanoseconds, whichever of them are negative.
pub proof fn law_interval_adds_up(months: i32, days: i32, microseconds: i64, out: TimeDelta)
    requires
        call_ensures(interval_delta, (months, days, microseconds), out),
    ensures
        out.secs * 1_000_000_000 + out.nanos == months * 2_592_000_000_000_000 + days
            * 86_400_000_000_000 + microseconds * 1_000,
        out.nanos < 1_000_000_000,
{
}

/// A span that was parsed keeps its length, to the nanosecond, unless it is
/// longer than `i64::MAX` milliseconds; what is wrong with a text is passed on.
pub proof fn law_parsed_span_keeps_its_length(
    parsed: Result<(u64, u32), String>,
    out: Option<Result<TimeDelta, String>>,
)
    requires
        parsed matches Ok((_, nanos)) ==> nanos < 1_000_000_000,
        call_ensures(parsed_timedelta, (parsed,), out),
    ensures
        parsed matches Ok((secs, nanos)) ==> (out is Some <==> secs * 1_000_000_000 + nanos
            <= 9_223_372_036_854_775_807 * 1_000_000),
        parsed matches Ok((secs, nanos)) ==> (out matches Some(result) ==> (
        result matches Ok(delta) && delta.secs * 1_000_000_000 + delta.nanos == secs
            * 1_000_000_000 + nanos)),
        parsed matches Err(e) ==> (out matches Some(Err(why)) && why@ == e@),
{
}

/// A file expires if and only if there is a time to live, and then that much
/// later than now; a longer time to live means that it expires later.
pub proof fn law_expiry_is_the_time_to_live_later(
    now: Timestamp,
    ttl: Option<TimeDelta>,
    longer: TimeDelta,
    out: Option<Timestamp>,
    later: Option<Timestamp>,
)
    requires
        call_ensures(delete_after, (now, ttl), out),
        call_ensures(delete_after, (now, Some(longer)), later),
    ensures
        out is Some <==> ttl is Some,
        out matches Some(at) ==> at.secs * 1_000_000_000 + at.nanos - (now.secs * 1_000_000_000
            + now.nanos) == ttl->0.secs * 1_000_000_000 + ttl->0.nanos,
        ttl matches Some(delta) ==> (delta.total() < longer.total() ==> out->0.total()
            < later->0.total()),
{
}

/// HTTP can show a point in time if and only if it is from the Unix epoch up to
/// the year 10000.
pub proof fn law_http_dates(at: Timestamp, yes: bool)
    requires
        call_ensures(has_http_date, (at,), yes),
    ensures
        yes <==> at.secs >= 0 && at.secs < 253_402_300_800,
{
}

/// A span of no more than eleven digits is always read, unless it is longer
/// than a `TimeDelta` can be.
pub proof fn law_short_span_is_read(input: &str, out: Option<Result<TimeDelta, String>>)
    requires
        span::digits_in(input@) <= 11,
        call_ensures(try_parse_timedelta, (input,), out),
    ensures
        match parsed_duration(input@) {
            Ok((secs, nanos)) => nanos < 1_000_000_000 && secs * 1_000_000_000 + nanos
                <= 9_223_372_036_854_775_807 * 1_000_000 ==> (out matches Some(Ok(delta))
                && delta.secs * 1_000_000_000 + delta.nanos == secs * 1_000_000_000 + nanos),
            Err(e) => out matches Some(Err(why)) && why@ == e,
        },
{
    span::lemma_short_text(input@);
}

/// A file can expire unless the time at which it would is outside the years
/// -262143 to 262142; one without a time to live always can do without.
pub proof fn law_what_can_expire(now: Timestamp, ttl: Option<TimeDelta>, yes: bool)
    requires
        call_ensures(can_expire, (now, ttl), yes),
    ensures
        ttl is None ==> yes,
        ttl matches Some(delta) ==> (yes <==> -8_334_601_228_800_000_000_000 <= now.secs
            * 1_000_000_000 + now.nanos + delta.secs * 1_000_000_000 + delta.nanos
            < 8_210_266_876_800_000_000_000),
{
}

/// HTTP shows a point in time by its second: what comes after that does not
/// show, and nothing else is left out.
pub proof fn law_http_date_shows_the_second(at: Timestamp, out: String)
    requires
        call_ensures(http_date, (at,), out),
    ensures
        out@ == http_date_text(at.secs as u64),
{
}

/// What a text is parsed as is what is given: as long, or wrong in the same way.
pub proof fn law_parsed_text_is_given(input: &str, out: Result<TimeDelta, String>)
    requires
        call_ensures(parse_timedelta, (input,), out),
    ensures
        parsed_duration(input@) matches Ok((secs, nanos)) ==> (out matches Ok(delta) && delta.secs
            * 1_000_000_000 + delta.nanos == secs * 1_000_000_000 + nanos),
        parsed_duration(input@) matches Err(e) ==> (out matches Err(why) && why@ == e),
{
}

} // verus!
