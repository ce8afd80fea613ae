//! Civil dates and times from epoch seconds, and the date strings the
//! library emits: ISO dates, RFC 2822 and RFC 3339 timestamps, and the
//! Tokyo-time rendering the templates use. Japan Standard Time is a fixed
//! nine hours ahead of UTC, with no daylight saving.

use vstd::prelude::*;

use crate::codec::{push_nat_width, spec_enc_nat};

verus! {

/// Seconds Japan Standard Time runs ahead of UTC.
pub const JST_OFFSET_SECONDS: u64 = 32400;

/// The latest clock value the formatting functions accept; it lies well
/// before the year 10000, so every year prints as four digits.
pub const MAX_FORMAT_EPOCH: u64 = 250000000000;

/// Whether `year` is a Gregorian leap year.
pub open spec fn spec_is_leap(year: int) -> bool {
    year % 4 == 0 && (year % 100 != 0 || year % 400 == 0)
}

/// Days in `year`.
pub open spec fn spec_days_in_year(year: int) -> int {
    if spec_is_leap(year) {
        366
    } else {
        365
    }
}

/// Days in `month` of `year`.
pub open spec fn spec_days_in_month(year: int, month: int) -> int {
    if month == 2 {
        if spec_is_leap(year) {
            29
        } else {
            28
        }
    } else if month == 4 || month == 6 || month == 9 || month == 11 {
        30
    } else {
        31
    }
}

/// The month and day that `days` (counted from the start of the year)
/// falls in, walking the months from `month` on.
pub open spec fn spec_month_day_from(year: int, month: int, days: int) -> (int, int)
    decreases 12 - month,
{
    if month >= 12 || days < spec_days_in_month(year, month) {
        (month, days + 1)
    } else {
        spec_month_day_from(year, month + 1, days - spec_days_in_month(year, month))
    }
}

/// The civil date that `days` (counted from the start of `year`) falls
/// in, walking the years from `year` on.
pub open spec fn spec_civil_from(year: int, days: int) -> (int, int, int)
    decreases days,
{
    if days < spec_days_in_year(year) || days < 0 {
        let (month, day) = spec_month_day_from(year, 1, days);
        (year, month, day)
    } else {
        spec_civil_from(year + 1, days - spec_days_in_year(year))
    }
}

/// The civil date of a day number counted from the epoch.
pub open spec fn spec_civil_from_epoch_days(days: int) -> (int, int, int) {
    spec_civil_from(1970, days)
}

fn is_leap(year: u32) -> (r: bool)
    ensures
        r == spec_is_leap(year as int),
{
    year % 4 == 0 && (year % 100 != 0 || year % 400 == 0)
}

fn days_in_year(year: u32) -> (r: u32)
    ensures
        r == spec_days_in_year(year as int),
{
    if is_leap(year) {
        366
    } else {
        365
    }
}

fn days_in_month(year: u32, month: u32) -> (r: u32)
    ensures
        r == spec_days_in_month(year as int, month as int),
{
    if month == 2 {
        if is_leap(year) {
            29
        } else {
            28
        }
    } else if month == 4 || month == 6 || month == 9 || month == 11 {
        30
    } else {
        31
    }
}

/// A civil date.
#[derive(Clone, Copy, Debug, PartialEq, Eq, Structural)]
pub struct Date {
    pub year: u32,
    pub month: u32,
    pub day: u32,
}

/// Days of `year` that pass before `month` begins.
pub open spec fn spec_days_before_month(year: int, month: int) -> int
    decreases month,
{
    if month <= 1 {
        0
    } else {
        spec_days_before_month(year, month - 1) + spec_days_in_month(year, month - 1)
    }
}

proof fn lemma_days_before_december(year: int)
    ensures
        spec_days_before_month(year, 12) == spec_days_in_year(year) - 31,
{
    reveal_with_fuel(spec_days_before_month, 13);
}

/// The civil date `days` whole days after the epoch.
pub fn civil_from_epoch_days(days: u64) -> (r: Date)
    requires
        days <= MAX_FORMAT_EPOCH / 86400,
    ensures
        (r.year as int, r.month as int, r.day as int) == spec_civil_from_epoch_days(days as int),
        1970 <= r.year < 10000,
        1 <= r.month <= 12,
        1 <= r.day <= 31,
{
    let mut year: u32 = 1970;
    let mut rem: u32 = days as u32;
    while rem >= days_in_year(year)
        invariant
            1970 <= year,
            spec_civil_from(year as int, rem as int) == spec_civil_from_epoch_days(days as int),
            365 * (year - 1970) <= days - rem,
            rem <= days,
            days <= MAX_FORMAT_EPOCH / 86400,
        decreases rem,
    {
        rem = rem - days_in_year(year);
        year = year + 1;
    }
    assert(year < 10000) by {
        assert(365 * (year - 1970) <= days);
        assert(days <= 2893518);
    }
    let ghost rem0 = rem as int;
    let ghost y = year as int;
    let mut month: u32 = 1;
    while month < 12 && rem >= days_in_month(year, month)
        invariant
            1 <= month <= 12,
            y == year as int,
            rem0 == rem + spec_days_before_month(y, month as int),
            rem0 < spec_days_in_year(y),
            spec_month_day_from(y, month as int, rem as int) == spec_month_day_from(y, 1, rem0),
            spec_civil_from(y, rem0) == spec_civil_from_epoch_days(days as int),
        decreases 12 - month,
    {
        rem = rem - days_in_month(year, month);
        month = month + 1;
    }
    proof {
        if month == 12 {
            lemma_days_before_december(y);
        }
    }
    Date { year, month, day: rem + 1 }
}

/// Days from the epoch to the start of `year`.
pub open spec fn spec_days_to_year(year: int) -> int
    decreases year,
{
    if year <= 1970 {
        0
    } else {
        spec_days_to_year(year - 1) + spec_days_in_year(year - 1)
    }
}

/// The epoch day number of a civil date.
pub open spec fn spec_days_from_civil(d: Date) -> int {
    spec_days_to_year(d.year as int) + spec_days_before_month(d.year as int, d.month as int) + (
    d.day - 1)
}

/// The epoch second of a civil date and time of day.
pub open spec fn spec_epoch_from_civil(d: Date, hour: int, minute: int, second: int) -> int {
    spec_days_from_civil(d) * 86400 + hour * 3600 + minute * 60 + second
}

/// The epoch day number a civil date falls on.
pub fn days_from_civil(d: Date) -> (r: u64)
    requires
        1970 <= d.year < 10000,
        1 <= d.month <= 12,
        1 <= d.day <= 31,
    ensures
        r == spec_days_from_civil(d),
        r <= 2939383,
{
    let mut acc: u64 = 0;
    let mut y: u32 = 1970;
    while y < d.year
        invariant
            1970 <= y <= d.year,
            d.year < 10000,
            acc == spec_days_to_year(y as int),
            acc <= 366 * (y - 1970),
        decreases d.year - y,
    {
        acc = acc + days_in_year(y) as u64;
        y = y + 1;
    }
    let mut m: u32 = 1;
    while m < d.month
        invariant
            1 <= m <= d.month <= 12,
            acc == spec_days_to_year(d.year as int) + spec_days_before_month(
                d.year as int,
                m as int,
            ),
            acc <= 366 * (d.year - 1970) + 31 * m,
        decreases d.month - m,
    {
        acc = acc + days_in_month(d.year, m) as u64;
        m = m + 1;
    }
    acc + (d.day - 1) as u64
}

/// The epoch second of a civil date and time of day; the counterpart of
/// reading a clock.
pub fn epoch_from_civil(d: Date, hour: u32, minute: u32, second: u32) -> (r: u64)
    requires
        1970 <= d.year < 10000,
        1 <= d.month <= 12,
        1 <= d.day <= 31,
        hour < 24,
        minute < 60,
        second < 60,
    ensures
        r == spec_epoch_from_civil(d, hour as int, minute as int, second as int),
{
    let days = days_from_civil(d);
    days * 86400 + (hour as u64) * 3600 + (minute as u64) * 60 + second as u64
}

/// Append `n` as two zero-padded digits.
fn push_two(out: &mut String, n: u64)
    requires
        n < 100,
    ensures
        final (out)@ == old(out)@ + spec_enc_nat(n, 2),
{
    push_nat_width(out, n, 2);
}

/// Append `n` as four zero-padded digits.
fn push_four(out: &mut String, n: u64)
    requires
        n < 10000,
    ensures
        final (out)@ == old(out)@ + spec_enc_nat(n, 4),
{
    push_nat_width(out, n, 4);
}

/// An ISO `year-month-day` date string.
pub open spec fn spec_iso_date(d: Date) -> Seq<char> {
    spec_enc_nat(d.year as u64, 4) + seq!['-'] + spec_enc_nat(d.month as u64, 2) + seq!['-']
        + spec_enc_nat(d.day as u64, 2)
}

impl Date {
    /// This date as `year-month-day`, zero-padded.
    pub fn iso_string(&self) -> (r: String)
        requires
            self.year < 10000,
            self.month < 100,
            self.day < 100,
        ensures
            r@ == spec_iso_date(*self),
    {
        let mut out = String::new();
        push_four(&mut out, self.year as u64);
        proof {
            reveal_strlit("-");
        }
        out.append("-");
        push_two(&mut out, self.month as u64);
        out.append("-");
        push_two(&mut out, self.day as u64);
        proof {
            assert(out@ =~= spec_iso_date(*self));
        }
        out
    }
}

/// The weekday name of an epoch day number; the epoch fell on a Thursday.
pub open spec fn spec_day_name(days: int) -> Seq<char> {
    let idx = (days + 4) % 7;
    if idx == 0 {
        "Sun"@
    } else if idx == 1 {
        "Mon"@
    } else if idx == 2 {
        "Tue"@
    } else if idx == 3 {
        "Wed"@
    } else if idx == 4 {
        "Thu"@
    } else if idx == 5 {
        "Fri"@
    } else {
        "Sat"@
    }
}

fn day_name(days: u64) -> (r: &'static str)
    requires
        days <= MAX_FORMAT_EPOCH,
    ensures
        r@ == spec_day_name(days as int),
{
    let idx = (days + 4) % 7;
    if idx == 0 {
        "Sun"
    } else if idx == 1 {
        "Mon"
    } else if idx == 2 {
        "Tue"
    } else if idx == 3 {
        "Wed"
    } else if idx == 4 {
        "Thu"
    } else if idx == 5 {
        "Fri"
    } else {
        "Sat"
    }
}

/// The short name of a month.
pub open spec fn spec_month_name(month: int) -> Seq<char> {
    if month == 1 {
        "Jan"@
    } else if month == 2 {
        "Feb"@
    } else if month == 3 {
        "Mar"@
    } else if month == 4 {
        "Apr"@
    } else if month == 5 {
        "May"@
    } else if month == 6 {
        "Jun"@
    } else if month == 7 {
        "Jul"@
    } else if month == 8 {
        "Aug"@
    } else if month == 9 {
        "Sep"@
    } else if month == 10 {
        "Oct"@
    } else if month == 11 {
        "Nov"@
    } else {
        "Dec"@
    }
}

fn month_name(month: u32) -> (r: &'static str)
    ensures
        r@ == spec_month_name(month as int),
{
    if month == 1 {
        "Jan"
    } else if month == 2 {
        "Feb"
    } else if month == 3 {
        "Mar"
    } else if month == 4 {
        "Apr"
    } else if month == 5 {
        "May"
    } else if month == 6 {
        "Jun"
    } else if month == 7 {
        "Jul"
    } else if month == 8 {
        "Aug"
    } else if month == 9 {
        "Sep"
    } else if month == 10 {
        "Oct"
    } else if month == 11 {
        "Nov"
    } else {
        "Dec"
    }
}

/// An RFC 2822 timestamp in UTC, as an `Expires` header carries it.
pub open spec fn spec_rfc2822_utc(epoch: int) -> Seq<char> {
    let days = epoch / 86400;
    let secs = epoch % 86400;
    let (y, m, d) = spec_civil_from_epoch_days(days);
    spec_day_name(days) + seq![',', ' '] + spec_enc_nat(d as u64, 2) + seq![' ']
        + spec_month_name(m) + seq![' '] + spec_enc_nat(y as u64, 4) + seq![' '] + spec_enc_nat(
        (secs / 3600) as u64,
        2,
    ) + seq![':'] + spec_enc_nat(((secs % 3600) / 60) as u64, 2) + seq![':'] + spec_enc_nat(
        (secs % 60) as u64,
        2,
    ) + seq![' ', '+', '0', '0', '0', '0']
}

/// Format an epoch second per RFC 2822, in UTC.
pub fn rfc2822_utc(epoch: u64) -> (r: String)
    requires
        epoch <= MAX_FORMAT_EPOCH,
    ensures
        r@ == spec_rfc2822_utc(epoch as int),
{
    let days = epoch / 86400;
    let secs = epoch % 86400;
    let date = civil_from_epoch_days(days);
    let mut out = String::new();
    proof {
        reveal_strlit(", ");
        reveal_strlit(" ");
        reveal_strlit(":");
        reveal_strlit(" +0000");
        assert(", "@ =~= seq![',', ' ']);
        assert(" "@ =~= seq![' ']);
        assert(":"@ =~= seq![':']);
        assert(" +0000"@ =~= seq![' ', '+', '0', '0', '0', '0']);
    }
    out.append(day_name(days));
    out.append(", ");
    push_two(&mut out, date.day as u64);
    out.append(" ");
    out.append(month_name(date.month));
    out.append(" ");
    push_four(&mut out, date.year as u64);
    out.append(" ");
    push_two(&mut out, secs / 3600);
    out.append(":");
    push_two(&mut out, (secs % 3600) / 60);
    out.append(":");
    push_two(&mut out, secs % 60);
    out.append(" +0000");
    proof {
        assert(out@ =~= spec_rfc2822_utc(epoch as int));
    }
    out
}

/// An RFC 3339 timestamp in UTC with millisecond precision; whole seconds
/// carry `.000`.
pub open spec fn spec_rfc3339_millis_utc(epoch: int) -> Seq<char> {
    let days = epoch / 86400;
    let secs = epoch % 86400;
    let (y, m, d) = spec_civil_from_epoch_days(days);
    spec_enc_nat(y as u64, 4) + seq!['-'] + spec_enc_nat(m as u64, 2) + seq!['-'] + spec_enc_nat(
        d as u64,
        2,
    ) + seq!['T'] + spec_enc_nat((secs / 3600) as u64, 2) + seq![':'] + spec_enc_nat(
        ((secs % 3600) / 60) as u64,
        2,
    ) + seq![':'] + spec_enc_nat((secs % 60) as u64, 2) + seq!['.', '0', '0', '0', 'Z']
}

/// Format an epoch second per RFC 3339, in UTC, with millisecond
/// precision.
pub fn rfc3339_millis_utc(epoch: u64) -> (r: String)
    requires
        epoch <= MAX_FORMAT_EPOCH,
    ensures
        r@ == spec_rfc3339_millis_utc(epoch as int),
{
    let days = epoch / 86400;
    let secs = epoch % 86400;
    let date = civil_from_epoch_days(days);
    let mut out = String::new();
    proof {
        reveal_strlit("-");
        reveal_strlit("T");
        reveal_strlit(":");
        reveal_strlit(".000Z");
        assert("-"@ =~= seq!['-']);
        assert("T"@ =~= seq!['T']);
        assert(":"@ =~= seq![':']);
        assert(".000Z"@ =~= seq!['.', '0', '0', '0', 'Z']);
    }
    push_four(&mut out, date.year as u64);
    out.append("-");
    push_two(&mut out, date.month as u64);
    out.append("-");
    push_two(&mut out, date.day as u64);
    out.append("T");
    push_two(&mut out, secs / 3600);
    out.append(":");
    push_two(&mut out, (secs % 3600) / 60);
    out.append(":");
    push_two(&mut out, secs % 60);
    out.append(".000Z");
    proof {
        assert(out@ =~= spec_rfc3339_millis_utc(epoch as int));
    }
    out
}

/// The date in Japan when the UTC clock reads `now`.
pub fn date_in_japan(now: u64) -> (r: Date)
    requires
        now + JST_OFFSET_SECONDS <= MAX_FORMAT_EPOCH,
    ensures
        (r.year as int, r.month as int, r.day as int) == spec_civil_from_epoch_days(
            (now + JST_OFFSET_SECONDS) as int / 86400,
        ),
        1970 <= r.year < 10000,
        1 <= r.month <= 12,
        1 <= r.day <= 31,
{
    civil_from_epoch_days((now + JST_OFFSET_SECONDS) / 86400)
}

/// The ISO date string of the day in Japan when the UTC clock reads
/// `now`; heat-map entries are keyed by such strings.
pub fn date_for_heatmap(now: u64) -> (r: String)
    requires
        now + JST_OFFSET_SECONDS <= MAX_FORMAT_EPOCH,
    ensures
        ({
            let (y, m, d) = spec_civil_from_epoch_days((now + JST_OFFSET_SECONDS) as int / 86400);
            r@ == spec_enc_nat(y as u64, 4) + seq!['-'] + spec_enc_nat(m as u64, 2) + seq!['-']
                + spec_enc_nat(d as u64, 2)
        }),
{
    let date = date_in_japan(now);
    let out = date.iso_string();
    proof {
        assert(out@ =~= spec_iso_date(date));
    }
    out
}

/// The UTC epoch second at which the current day in Japan began.
pub fn today_jst_midnight_in_utc(now: u64) -> (r: u64)
    requires
        86400 <= now,
        now + JST_OFFSET_SECONDS <= MAX_FORMAT_EPOCH,
    ensures
        r == ((now + JST_OFFSET_SECONDS) / 86400) * 86400 - JST_OFFSET_SECONDS,
{
    ((now + JST_OFFSET_SECONDS) / 86400) * 86400 - JST_OFFSET_SECONDS
}

/// A timestamp in Japan Standard Time as the templates show it:
/// `day/month/year, hour:minute am|pm +09:00`, with a twelve-hour clock.
pub open spec fn spec_tokyo_template(epoch: int) -> Seq<char> {
    let jst = epoch + JST_OFFSET_SECONDS;
    let days = jst / 86400;
    let secs = jst % 86400;
    let hour = secs / 3600;
    let minute = (secs % 3600) / 60;
    let hour12 = if hour % 12 == 0 {
        12
    } else {
        hour % 12
    };
    let (y, m, d) = spec_civil_from_epoch_days(days);
    spec_enc_nat(d as u64, 2) + seq!['/'] + spec_enc_nat(m as u64, 2) + seq!['/'] + spec_enc_nat(
        y as u64,
        4,
    ) + seq![',', ' '] + spec_enc_nat(hour12 as u64, 2) + seq![':'] + spec_enc_nat(
        minute as u64,
        2,
    ) + seq![' '] + (if hour < 12 {
        seq!['a', 'm']
    } else {
        seq!['p', 'm']
    }) + seq![' ', '+', '0', '9', ':', '0', '0']
}

/// Render a UTC timestamp in Japan Standard Time, the way the templates
/// show dates.
pub fn format_date(epoch: u64) -> (r: String)
    requires
        epoch + JST_OFFSET_SECONDS <= MAX_FORMAT_EPOCH,
    ensures
        r@ == spec_tokyo_template(epoch as int),
{
    let jst = epoch + JST_OFFSET_SECONDS;
    let days = jst / 86400;
    let secs = jst % 86400;
    let hour = secs / 3600;
    let minute = (secs % 3600) / 60;
    let hour12 = if hour % 12 == 0 {
        12
    } else {
        hour % 12
    };
    let date = civil_from_epoch_days(days);
    let mut out = String::new();
    proof {
        reveal_strlit("/");
        reveal_strlit(", ");
        reveal_strlit(":");
        reveal_strlit(" ");
        reveal_strlit("am");
        reveal_strlit("pm");
        reveal_strlit(" +09:00");
        assert("/"@ =~= seq!['/']);
        assert(", "@ =~= seq![',', ' ']);
        assert(":"@ =~= seq![':']);
        assert(" "@ =~= seq![' ']);
        assert("am"@ =~= seq!['a', 'm']);
        assert("pm"@ =~= seq!['p', 'm']);
        assert(" +09:00"@ =~= seq![' ', '+', '0', '9', ':', '0', '0']);
    }
    push_two(&mut out, date.day as u64);
    out.append("/");
    push_two(&mut out, date.month as u64);
    out.append("/");
    push_four(&mut out, date.year as u64);
    out.append(", ");
    push_two(&mut out, hour12);
    out.append(":");
    push_two(&mut out, minute);
    out.append(" ");
    if hour < 12 {
        out.append("am");
    } else {
        out.append("pm");
    }
    out.append(" +09:00");
    proof {
        assert(out@ =~= spec_tokyo_template(epoch as int));
    }
    out
}

} // verus!
