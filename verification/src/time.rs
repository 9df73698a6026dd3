//! The ASN.1 timestamp primitives: the flexible-precision timestamp and
//! the four-digit-year timestamp, with textual rendering and construction
//! from an interval of days from the current time.
//!
//! A timestamp is modelled as whole seconds since the Unix epoch, in the
//! proleptic Gregorian calendar at UTC. Construction rejects instants at
//! or beyond the year 10000, which a four-digit year cannot hold. The
//! rendered form is the native one: abbreviated month name, space-padded
//! day, clock time, year and the UTC designator.

use vstd::prelude::*;
use vstd::string::StringExecFns;
use crate::error::ErrorStack;
use crate::error::ERR_TIME_RANGE;
use crate::render::dec_chars;
use crate::render::push_two_dec;
use crate::render::push_u64_dec;
use crate::render::two_dec_chars;

verus! {

/// Seconds in one day.
pub const SECS_PER_DAY: u64 = 86400;

/// The first instant of the year 10000: the least timestamp no four-digit
/// year can render.
pub const MAX_REPRESENTABLE_SECS: u64 = 253402300800;

/// Whether a year is a leap year in the Gregorian calendar.
pub open spec fn is_leap_year(y: int) -> bool {
    (y % 4 == 0 && y % 100 != 0) || y % 400 == 0
}

/// The number of days in a year.
pub open spec fn days_in_year(y: int) -> int {
    if is_leap_year(y) {
        366
    } else {
        365
    }
}

/// The number of days in a month, numbered 1 through 12.
pub open spec fn days_in_month(y: int, m: int) -> int {
    if m == 1 {
        31
    } else if m == 2 {
        if is_leap_year(y) {
            29
        } else {
            28
        }
    } else if m == 3 {
        31
    } else if m == 4 {
        30
    } else if m == 5 {
        31
    } else if m == 6 {
        30
    } else if m == 7 {
        31
    } else if m == 8 {
        31
    } else if m == 9 {
        30
    } else if m == 10 {
        31
    } else if m == 11 {
        30
    } else {
        31
    }
}

/// Walks whole years forward from `y` until fewer than a year of days is
/// left, yielding the final year and the remaining days.
pub open spec fn resolve_year(y: int, d: int) -> (int, int)
    decreases d,
{
    if 0 <= d && d >= days_in_year(y) {
        resolve_year(y + 1, d - days_in_year(y))
    } else {
        (y, d)
    }
}

/// Walks whole months forward from `m` within year `y` until fewer than a
/// month of days is left, yielding the final month and the remaining
/// days.
pub open spec fn resolve_month(y: int, m: int, d: int) -> (int, int)
    decreases 12 - m,
{
    if m < 12 && 0 <= d && d >= days_in_month(y, m) {
        resolve_month(y, m + 1, d - days_in_month(y, m))
    } else {
        (m, d)
    }
}

/// The calendar date `(year, month, day)` of the given day count since
/// the epoch, with months and days numbered from one.
pub open spec fn date_of_days(days: int) -> (int, int, int) {
    let yd = resolve_year(1970, days);
    let md = resolve_month(yd.0, 1, yd.1);
    (yd.0, md.0, md.1 + 1)
}

/// The days left in year `y` from month `m` to its end.
pub open spec fn days_from_month(y: int, m: int) -> int
    decreases 13 - m,
{
    if 1 <= m <= 12 {
        days_in_month(y, m) + days_from_month(y, m + 1)
    } else {
        0
    }
}

proof fn lemma_resolve_year_range(y: int, d: int)
    requires
        0 <= d,
    ensures
        resolve_year(y, d).0 >= y,
        0 <= resolve_year(y, d).1 < days_in_year(resolve_year(y, d).0),
    decreases d,
{
    if d >= days_in_year(y) {
        lemma_resolve_year_range(y + 1, d - days_in_year(y));
    }
}

proof fn lemma_resolve_month_range(y: int, m: int, d: int)
    requires
        1 <= m <= 12,
        0 <= d < days_from_month(y, m),
    ensures
        1 <= resolve_month(y, m, d).0 <= 12,
        0 <= resolve_month(y, m, d).1 < days_in_month(y, resolve_month(y, m, d).0),
    decreases 12 - m,
{
    if m < 12 && d >= days_in_month(y, m) {
        lemma_resolve_month_range(y, m + 1, d - days_in_month(y, m));
    } else {
        assert(days_from_month(y, m) == days_in_month(y, m) + days_from_month(y, m + 1));
        if m == 12 {
            assert(days_from_month(y, 13) == 0);
        }
    }
}

/// Every non-negative day count resolves to a genuine calendar date: a
/// year no earlier than the epoch's, a month from one to twelve, and a
/// day from one to that month's length. The rendered text of a timestamp
/// therefore always shows a real date.
pub proof fn lemma_date_of_days_valid(days: int)
    requires
        0 <= days,
    ensures
        date_of_days(days).0 >= 1970,
        1 <= date_of_days(days).1 <= 12,
        1 <= date_of_days(days).2 <= days_in_month(date_of_days(days).0, date_of_days(days).1),
{
    lemma_resolve_year_range(1970, days);
    let yd = resolve_year(1970, days);
    assert(days_from_month(yd.0, 1) == days_in_year(yd.0)) by {
        reveal_with_fuel(days_from_month, 14);
    }
    lemma_resolve_month_range(yd.0, 1, yd.1);
}

/// The abbreviated name of a month numbered 1 through 12.
pub open spec fn month_name(m: int) -> Seq<char> {
    if m == 1 {
        "Jan"@
    } else if m == 2 {
        "Feb"@
    } else if m == 3 {
        "Mar"@
    } else if m == 4 {
        "Apr"@
    } else if m == 5 {
        "May"@
    } else if m == 6 {
        "Jun"@
    } else if m == 7 {
        "Jul"@
    } else if m == 8 {
        "Aug"@
    } else if m == 9 {
        "Sep"@
    } else if m == 10 {
        "Oct"@
    } else if m == 11 {
        "Nov"@
    } else {
        "Dec"@
    }
}

/// The day of the month, space-padded to two columns.
pub open spec fn day_field(d: int) -> Seq<char>
    recommends
        1 <= d,
{
    if d < 10 {
        " "@ + dec_chars(d as nat)
    } else {
        dec_chars(d as nat)
    }
}

/// The full rendered text of a timestamp: month name, space-padded day,
/// clock time, year and the UTC designator.
pub open spec fn time_text(secs: u64) -> Seq<char> {
    let days = secs as int / 86400;
    let rem = secs as int % 86400;
    let date = date_of_days(days);
    month_name(date.1) + " "@ + day_field(date.2) + " "@ + two_dec_chars((rem / 3600) as nat)
        + ":"@ + two_dec_chars(((rem % 3600) / 60) as nat) + ":"@ + two_dec_chars(
        (rem % 60) as nat,
    ) + " "@ + dec_chars(date.0 as nat) + " GMT"@
}

/// The number of days in a year, executably.
fn days_in_year_exec(y: u64) -> (r: u64)
    ensures
        r as int == days_in_year(y as int),
{
    if (y % 4 == 0 && y % 100 != 0) || y % 400 == 0 {
        366
    } else {
        365
    }
}

/// The number of days in a month, executably.
fn days_in_month_exec(y: u64, m: u64) -> (r: u64)
    requires
        1 <= m <= 12,
    ensures
        r as int == days_in_month(y as int, m as int),
{
    if m == 1 {
        31
    } else if m == 2 {
        if (y % 4 == 0 && y % 100 != 0) || y % 400 == 0 {
            29
        } else {
            28
        }
    } else if m == 3 {
        31
    } else if m == 4 {
        30
    } else if m == 5 {
        31
    } else if m == 6 {
        30
    } else if m == 7 {
        31
    } else if m == 8 {
        31
    } else if m == 9 {
        30
    } else if m == 10 {
        31
    } else if m == 11 {
        30
    } else {
        31
    }
}

/// The abbreviated name of a month, executably.
fn month_name_exec(m: u64) -> (r: &'static str)
    requires
        1 <= m <= 12,
    ensures
        r@ == month_name(m as int),
{
    if m == 1 {
        "Jan"
    } else if m == 2 {
        "Feb"
    } else if m == 3 {
        "Mar"
    } else if m == 4 {
        "Apr"
    } else if m == 5 {
        "May"
    } else if m == 6 {
        "Jun"
    } else if m == 7 {
        "Jul"
    } else if m == 8 {
        "Aug"
    } else if m == 9 {
        "Sep"
    } else if m == 10 {
        "Oct"
    } else if m == 11 {
        "Nov"
    } else {
        "Dec"
    }
}

/// Renders the timestamp's text.
fn render_time(secs: u64) -> (r: String)
    ensures
        r@ == time_text(secs),
{
    let days: u64 = secs / SECS_PER_DAY;
    let rem: u64 = secs % SECS_PER_DAY;
    let mut y: u64 = 1970;
    let mut d: u64 = days;
    loop
        invariant
            1970 <= y,
            d <= days,
            days <= 0xFFFF_FFFF_FFFF_FFFFu64 / 86400,
            y - 1970 <= days - d,
            resolve_year(1970, days as int) == resolve_year(y as int, d as int),
        ensures
            1970 <= y,
            (d as int) < days_in_year(y as int),
            resolve_year(1970, days as int) == (y as int, d as int),
        decreases d,
    {
        let diy = days_in_year_exec(y);
        if d < diy {
            proof {
                assert(resolve_year(y as int, d as int) == (y as int, d as int));
            }
            break;
        }
        proof {
            assert(resolve_year(y as int, d as int) == resolve_year(
                y as int + 1,
                d as int - days_in_year(y as int),
            ));
        }
        d = d - diy;
        y = y + 1;
    }
    let ghost doy: u64 = d;
    let mut m: u64 = 1;
    loop
        invariant
            1 <= m <= 12,
            d <= doy,
            doy < 366,
            resolve_month(y as int, 1, doy as int) == resolve_month(y as int, m as int, d as int),
        ensures
            1 <= m <= 12,
            d < 366,
            resolve_month(y as int, 1, doy as int) == (m as int, d as int),
        decreases 12 - m,
    {
        let dim = days_in_month_exec(y, m);
        if m >= 12 || d < dim {
            proof {
                assert(resolve_month(y as int, m as int, d as int) == (m as int, d as int));
            }
            break;
        }
        proof {
            assert(resolve_month(y as int, m as int, d as int) == resolve_month(
                y as int,
                m as int + 1,
                d as int - days_in_month(y as int, m as int),
            ));
        }
        d = d - dim;
        m = m + 1;
    }
    let day: u64 = d + 1;
    let hh: u64 = rem / 3600;
    let mi: u64 = (rem % 3600) / 60;
    let ss: u64 = rem % 60;
    let mut out = String::new();
    out.append(month_name_exec(m));
    out.append(" ");
    if day < 10 {
        out.append(" ");
        push_u64_dec(&mut out, day);
    } else {
        push_u64_dec(&mut out, day);
    }
    out.append(" ");
    push_two_dec(&mut out, hh);
    out.append(":");
    push_two_dec(&mut out, mi);
    out.append(":");
    push_two_dec(&mut out, ss);
    out.append(" ");
    push_u64_dec(&mut out, y);
    out.append(" GMT");
    proof {
        assert(out@ =~= time_text(secs));
    }
    out
}

/// Relies on the system clock, `std::time::SystemTime::now`, read as
/// whole seconds since the Unix epoch; nothing is promised of the value
/// it returns.
#[verifier::external_body]
fn current_unix_seconds() -> u64 {
    match std::time::SystemTime::now().duration_since(std::time::UNIX_EPOCH) {
        Ok(d) => d.as_secs(),
        Err(_) => 0,
    }
}

/// Non-owning view of a flexible-precision timestamp, valid only while
/// its owner lives.
#[derive(Debug)]
pub struct Asn1TimeRef {
    secs: u64,
}

impl View for Asn1TimeRef {
    type V = u64;

    closed spec fn view(&self) -> u64 {
        self.secs
    }
}

impl Asn1TimeRef {
    /// Renders the timestamp's text.
    pub fn text(&self) -> (r: String)
        ensures
            r@ == time_text(self@),
    {
        render_time(self.secs)
    }
}

/// Owning flexible-precision timestamp. Dropping it releases the value
/// exactly once; reads go through the borrowed view.
#[derive(Debug)]
pub struct Asn1Time {
    inner: Asn1TimeRef,
}

impl View for Asn1Time {
    type V = u64;

    closed spec fn view(&self) -> u64 {
        self.inner@
    }
}

impl Asn1Time {
    /// Wraps an instant given as whole seconds since the Unix epoch.
    /// Fails exactly when the instant lies at or beyond the year 10000;
    /// the range error is recorded.
    pub fn from_unix(secs: u64) -> (r: Result<Asn1Time, ErrorStack>)
        ensures
            r is Ok <==> secs < MAX_REPRESENTABLE_SECS,
            r matches Ok(t) ==> t@ == secs,
            r matches Err(e) ==> e@ == seq![ERR_TIME_RANGE],
    {
        if secs < MAX_REPRESENTABLE_SECS {
            Ok(Asn1Time { inner: Asn1TimeRef { secs } })
        } else {
            Err(ErrorStack::from_code(ERR_TIME_RANGE))
        }
    }

    /// The instant a whole number of days past a given current time.
    /// Fails exactly when that instant lies at or beyond the year 10000;
    /// the range error is recorded.
    pub fn from_now_offset(now: u64, days: u32) -> (r: Result<Asn1Time, ErrorStack>)
        ensures
            r is Ok <==> now as int + days as int * 86400 < MAX_REPRESENTABLE_SECS as int,
            r matches Ok(t) ==> t@ == now + days as u64 * 86400,
            r matches Err(e) ==> e@ == seq![ERR_TIME_RANGE],
    {
        let offset: u64 = days as u64 * SECS_PER_DAY;
        if now >= MAX_REPRESENTABLE_SECS || offset >= MAX_REPRESENTABLE_SECS - now {
            Err(ErrorStack::from_code(ERR_TIME_RANGE))
        } else {
            Asn1Time::from_unix(now + offset)
        }
    }

    /// Creates a new time on the specified interval in days from now,
    /// read from the system clock. Whatever the clock returned, a
    /// successfully built timestamp lies before the year 10000.
    pub fn days_from_now(days: u32) -> (r: Result<Asn1Time, ErrorStack>)
        ensures
            r matches Ok(t) ==> t@ < MAX_REPRESENTABLE_SECS,
            r matches Err(e) ==> e@ == seq![ERR_TIME_RANGE],
    {
        let now = current_unix_seconds();
        Asn1Time::from_now_offset(now, days)
    }

    /// Borrows the non-owning view.
    pub fn as_ref(&self) -> (r: &Asn1TimeRef)
        ensures
            r@ == self@,
    {
        &self.inner
    }
}

/// Non-owning view of a four-digit-year timestamp, valid only while its
/// owner lives.
#[derive(Debug)]
pub struct Asn1GeneralizedTimeRef {
    secs: u64,
}

impl View for Asn1GeneralizedTimeRef {
    type V = u64;

    closed spec fn view(&self) -> u64 {
        self.secs
    }
}

impl Asn1GeneralizedTimeRef {
    /// Renders the timestamp's text.
    pub fn text(&self) -> (r: String)
        ensures
            r@ == time_text(self@),
    {
        render_time(self.secs)
    }
}

/// Owning four-digit-year timestamp. Dropping it releases the value
/// exactly once; reads go through the borrowed view.
#[derive(Debug)]
pub struct Asn1GeneralizedTime {
    inner: Asn1GeneralizedTimeRef,
}

impl View for Asn1GeneralizedTime {
    type V = u64;

    closed spec fn view(&self) -> u64 {
        self.inner@
    }
}

impl Asn1GeneralizedTime {
    /// Wraps an instant given as whole seconds since the Unix epoch.
    /// Fails exactly when the instant lies at or beyond the year 10000;
    /// the range error is recorded.
    pub fn from_unix(secs: u64) -> (r: Result<Asn1GeneralizedTime, ErrorStack>)
        ensures
            r is Ok <==> secs < MAX_REPRESENTABLE_SECS,
            r matches Ok(t) ==> t@ == secs,
            r matches Err(e) ==> e@ == seq![ERR_TIME_RANGE],
    {
        if secs < MAX_REPRESENTABLE_SECS {
            Ok(Asn1GeneralizedTime { inner: Asn1GeneralizedTimeRef { secs } })
        } else {
            Err(ErrorStack::from_code(ERR_TIME_RANGE))
        }
    }

    /// Borrows the non-owning view.
    pub fn as_ref(&self) -> (r: &Asn1GeneralizedTimeRef)
        ensures
            r@ == self@,
    {
        &self.inner
    }
}

} // verus!
