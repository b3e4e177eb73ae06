//! Points in time and their RFC 3339 text.

use crate::error::{fails, AppError, ErrorKind, Result};
use crate::text;
use vstd::prelude::*;

verus! {

/// The earliest and the latest whole second of a calendar time.
pub const MIN_SECS: i64 = -8_334_601_228_800;

pub const MAX_SECS: i64 = 8_210_266_876_799;

/// A time in UTC: whole seconds since 1970 and the nanoseconds after them.
///
/// A leap second is written as the second before it with 1,000,000,000
/// nanoseconds or more.
#[derive(Clone, Copy, Debug, PartialEq, Eq, Structural)]
pub struct UtcTime {
    pub secs: i64,
    pub nanos: u32,
}

/// Whether these seconds and nanoseconds are a calendar time.
pub open spec fn representable(secs: int, nanos: int) -> bool {
    &&& MIN_SECS <= secs <= MAX_SECS
    &&& 0 <= nanos < 1_000_000_000 || (1_000_000_000 <= nanos < 2_000_000_000 && secs % 60 == 59)
}

/// Seconds and nanoseconds of a time `ms` milliseconds after `t`. A time inside a
/// leap second stays in it as long as it can and leaves it as the second before it.
pub open spec fn shifted(t: UtcTime, ms: nat) -> (int, int) {
    let add = ms * 1_000_000;
    if t.nanos >= 1_000_000_000 && t.nanos + add < 2_000_000_000 {
        (t.secs as int, t.nanos + add)
    } else {
        let n = if t.nanos >= 1_000_000_000 {
            t.nanos - 1_000_000_000 + add
        } else {
            t.nanos + add
        };
        (t.secs + n / 1_000_000_000, n % 1_000_000_000)
    }
}

/// Whether a time `ms` milliseconds after `t` is still a calendar time.
pub open spec fn can_shift(t: UtcTime, ms: nat) -> bool {
    shifted(t, ms).0 <= MAX_SECS
}

/// `a` is not later than `b`.
pub open spec fn not_later(a: UtcTime, b: UtcTime) -> bool {
    a.secs < b.secs || (a.secs == b.secs && a.nanos <= b.nanos)
}

pub open spec fn earlier_of(a: UtcTime, b: UtcTime) -> UtcTime {
    if not_later(a, b) {
        a
    } else {
        b
    }
}

pub open spec fn later_of(a: UtcTime, b: UtcTime) -> UtcTime {
    if not_later(a, b) {
        b
    } else {
        a
    }
}

/// The seconds that lie between two times, rounded down; a leap second that lies
/// between them on the clock counts.
pub open spec fn seconds_between(from: UtcTime, to: UtcTime) -> int {
    let from_clock = from.secs as int % 86_400;
    let to_clock = to.secs as int % 86_400;
    let leap = if to_clock > from_clock && from.nanos >= 1_000_000_000 {
        1int
    } else if to_clock < from_clock && to.nanos >= 1_000_000_000 {
        -1int
    } else {
        0int
    };
    to.secs - from.secs + leap + (to.nanos - from.nanos) / 1_000_000_000
}

impl UtcTime {
    pub open spec fn wf(self) -> bool {
        representable(self.secs as int, self.nanos as int)
    }

    /// The time `ms` milliseconds later.
    pub fn plus_millis(self, ms: u64) -> (r: UtcTime)
        requires
            self.wf(),
            can_shift(self, ms as nat),
        ensures
            r.wf(),
            (r.secs as int, r.nanos as int) == shifted(self, ms as nat),
    {
        if self.nanos >= 1_000_000_000 && ms < 1_000 && self.nanos as u64 + ms * 1_000_000
            < 2_000_000_000 {
            return UtcTime { secs: self.secs, nanos: (self.nanos as u64 + ms * 1_000_000) as u32 };
        }
        let base: u32 = if self.nanos >= 1_000_000_000 {
            self.nanos - 1_000_000_000
        } else {
            self.nanos
        };
        let whole: u64 = ms / 1_000;
        let part: u64 = base as u64 + (ms % 1_000) * 1_000_000;
        let carry: u64 = part / 1_000_000_000;
        proof {
            let n = base + ms * 1_000_000;
            assert(n == whole * 1_000_000_000 + part);
            assert(n / 1_000_000_000 == whole + carry);
            assert(n % 1_000_000_000 == part % 1_000_000_000);
        }
        UtcTime {
            secs: self.secs + (whole + carry) as i64,
            nanos: (part % 1_000_000_000) as u32,
        }
    }

    /// Whether the time `ms` milliseconds later is still a calendar time.
    pub fn can_move(self, ms: u64) -> (r: bool)
        requires
            self.wf(),
        ensures
            r == can_shift(self, ms as nat),
    {
        let base: u32 = if self.nanos >= 1_000_000_000 {
            self.nanos - 1_000_000_000
        } else {
            self.nanos
        };
        let carried: i128 = (base as i128 + ms as i128 * 1_000_000) / 1_000_000_000;
        let stays = self.nanos >= 1_000_000_000 && self.nanos as u128 + ms as u128 * 1_000_000
            < 2_000_000_000;
        stays || self.secs as i128 + carried <= MAX_SECS as i128
    }

    /// Whether this time is not later than `other`.
    pub fn at_most(self, other: UtcTime) -> (r: bool)
        ensures
            r == not_later(self, other),
    {
        self.secs < other.secs || (self.secs == other.secs && self.nanos <= other.nanos)
    }

    pub fn earlier(self, other: UtcTime) -> (r: UtcTime)
        ensures
            r == earlier_of(self, other),
    {
        if self.at_most(other) {
            self
        } else {
            other
        }
    }

    pub fn later(self, other: UtcTime) -> (r: UtcTime)
        ensures
            r == later_of(self, other),
    {
        if self.at_most(other) {
            other
        } else {
            self
        }
    }

    /// The whole seconds from this time to `later`, or 0 where `later` is earlier.
    pub fn seconds_until(self, later: UtcTime) -> (r: u64)
        requires
            self.wf(),
            later.wf(),
        ensures
            r == if seconds_between(self, later) < 0 {
                0
            } else {
                seconds_between(self, later)
            },
    {
        // The earliest second is the start of a day.
        proof {
            lemma_clock(self.secs as int);
            lemma_clock(later.secs as int);
            lemma_floor_nanos(later.nanos - self.nanos);
        }
        let from_clock: i64 = (self.secs - MIN_SECS) % 86_400;
        let to_clock: i64 = (later.secs - MIN_SECS) % 86_400;
        let leap: i64 = if to_clock > from_clock && self.nanos >= 1_000_000_000 {
            1
        } else if to_clock < from_clock && later.nanos >= 1_000_000_000 {
            -1
        } else {
            0
        };
        // The difference lies above -2,000,000,000, so the sum is positive and its
        // quotient is two too large.
        let nanos: i64 = (later.nanos as i64 - self.nanos as i64 + 2_000_000_000) / 1_000_000_000
            - 2;
        let total: i64 = later.secs - self.secs + leap + nanos;
        if total < 0 {
            0
        } else {
            total as u64
        }
    }
}

proof fn lemma_clock(secs: int)
    ensures
        (secs - MIN_SECS) % 86_400 == secs % 86_400,
{
    vstd::arithmetic::div_mod::lemma_mod_multiples_vanish(96_465_292, secs, 86_400);
}

proof fn lemma_floor_nanos(d: int)
    ensures
        (d + 2_000_000_000) / 1_000_000_000 - 2 == d / 1_000_000_000,
{
}

/// What `chrono::DateTime::parse_from_rfc3339` makes of a text: the seconds and
/// nanoseconds of the time, or the text of its error.
pub uninterp spec fn rfc3339_parsed(s: Seq<char>) -> std::result::Result<(i64, u32), Seq<char>>;

/// What `chrono::DateTime::<Utc>::to_rfc3339_opts` writes for a time, with three
/// digits of a second and `Z` for the offset.
pub uninterp spec fn rfc3339_millis(secs: i64, nanos: u32) -> Seq<char>;

/// Whether the year of this time is written with four digits.
pub open spec fn four_digit_year(secs: int) -> bool {
    -62_167_219_200 <= secs <= 253_402_300_799
}

/// `YYYY-MM-DDTHH:MM:SS.mmmZ`
pub open spec fn is_stamp(s: Seq<char>) -> bool {
    &&& s.len() == 24
    &&& s[4] == '-'
    &&& s[7] == '-'
    &&& s[10] == 'T'
    &&& s[13] == ':'
    &&& s[16] == ':'
    &&& s[19] == '.'
    &&& s[23] == 'Z'
    &&& forall|i: int|
        0 <= i < 24 && i != 4 && i != 7 && i != 10 && i != 13 && i != 16 && i != 19 && i != 23
            ==> text::is_digit(#[trigger] s[i])
}

/// The nanoseconds without what lies below a millisecond.
pub open spec fn whole_millis(nanos: u32) -> u32 {
    ((nanos / 1_000_000) * 1_000_000) as u32
}

/// Whether the time has a year of four digits at some offset of less than a day.
pub open spec fn is_readable(secs: int, nanos: int) -> bool {
    &&& representable(secs, nanos)
    &&& -62_167_305_600 < secs < 253_402_387_200
}

/// `chrono::DateTime::parse_from_rfc3339`, with the time taken as seconds and
/// nanoseconds in UTC and the error as its text. Claims that the outcome depends on
/// the text alone and that the time is a calendar time whose year has four digits at
/// the offset that is written.
#[verifier::external_body]
fn chrono_parse(value: &str) -> (r: std::result::Result<(i64, u32), String>)
    ensures
        match r {
            Ok(t) => (rfc3339_parsed(value@) matches Ok(p) && p == t) && is_readable(
                t.0 as int,
                t.1 as int,
            ),
            Err(e) => rfc3339_parsed(value@) matches Err(p) && p == e@,
        },
{
    match chrono::DateTime::parse_from_rfc3339(value) {
        Ok(t) => Ok((t.timestamp(), t.timestamp_subsec_nanos())),
        Err(e) => Err(e.to_string()),
    }
}

/// Whether `s` has the shape of a stamp and stands for this time without what lies
/// below a millisecond, where the year has four digits.
pub open spec fn reads_back(s: Seq<char>, secs: i64, nanos: u32) -> bool {
    four_digit_year(secs as int) ==> {
        &&& is_stamp(s)
        &&& rfc3339_parsed(s) matches Ok(p)
        &&& p == (secs, whole_millis(nanos))
    }
}

/// `chrono::DateTime::<Utc>::to_rfc3339_opts` with milliseconds and `Z`. Claims that
/// the text depends on the time alone, and for a year of four digits its shape and
/// that `parse_from_rfc3339` reads back the time without what lies below a
/// millisecond.
#[verifier::external_body]
fn chrono_format(secs: i64, nanos: u32) -> (r: String)
    requires
        representable(secs as int, nanos as int),
    ensures
        r@ == rfc3339_millis(secs, nanos),
        reads_back(r@, secs, nanos),
{
    chrono::DateTime::<chrono::Utc>::from_timestamp(secs, nanos).expect("a calendar time")
        .to_rfc3339_opts(chrono::SecondsFormat::Millis, true)
}

/// `chrono::Utc::now`. Claims only that the clock shows a calendar time.
#[verifier::external_body]
fn chrono_now() -> (r: (i64, u32))
    ensures
        representable(r.0 as int, r.1 as int),
{
    let now = chrono::Utc::now();
    (now.timestamp(), now.timestamp_subsec_nanos())
}

/// The time on the clock.
pub fn now() -> (r: UtcTime)
    ensures
        r.wf(),
{
    let (secs, nanos) = chrono_now();
    UtcTime { secs, nanos }
}

/// The time on the clock as RFC 3339 text.
pub fn now_rfc3339() -> (r: String)
    ensures
        exists|t: UtcTime| t.wf() && r@ == #[trigger] rfc3339_millis(t.secs, t.nanos),
{
    let t = now();
    datetime_rfc3339(t)
}

/// A time as RFC 3339 text with milliseconds, in UTC.
pub fn datetime_rfc3339(value: UtcTime) -> (r: String)
    requires
        value.wf(),
    ensures
        r@ == rfc3339_millis(value.secs, value.nanos),
        four_digit_year(value.secs as int) ==> is_stamp(r@),
        four_digit_year(value.secs as int) ==> parsed_time(r@) == Some(
            (UtcTime { secs: value.secs, nanos: whole_millis(value.nanos) }),
        ),
{
    chrono_format(value.secs, value.nanos)
}

/// The time that a text stands for, where it is RFC 3339.
pub open spec fn parsed_time(s: Seq<char>) -> Option<UtcTime> {
    match rfc3339_parsed(s) {
        Ok((secs, nanos)) => Some(UtcTime { secs, nanos }),
        Err(_) => None,
    }
}

/// The message for a text that is no RFC 3339 time.
pub open spec fn invalid_timestamp(value: Seq<char>, reason: Seq<char>) -> Seq<char> {
    "invalid RFC3339 timestamp '"@ + value + "': "@ + reason
}

pub fn parse_rfc3339(value: &str) -> (r: Result<UtcTime>)
    ensures
        match rfc3339_parsed(value@) {
            Ok((secs, nanos)) => (r matches Ok(t) && t == (UtcTime { secs, nanos }) && is_readable(
                secs as int,
                nanos as int,
            )),
            Err(reason) => fails(r, ErrorKind::Other, invalid_timestamp(value@, reason)),
        },
{
    match chrono_parse(value) {
        Ok((secs, nanos)) => Ok(UtcTime { secs, nanos }),
        Err(reason) => {
            let message = text::concat4(
                "invalid RFC3339 timestamp '",
                value,
                "': ",
                reason.as_str(),
            );
            Err(AppError::other(message.as_str()))
        },
    }
}

/// Times are ordered: any two one way, and both ways only where they are equal.
pub proof fn law_times_are_ordered(a: UtcTime, b: UtcTime, c: UtcTime)
    ensures
        not_later(a, b) || not_later(b, a),
        not_later(a, b) && not_later(b, a) ==> a == b,
        not_later(a, b) && not_later(b, c) ==> not_later(a, c),
{
}

/// A time that was moved forward is not earlier than before.
pub proof fn law_shift_moves_forward(t: UtcTime, ms: nat, r: UtcTime)
    requires
        t.wf(),
        (r.secs as int, r.nanos as int) == shifted(t, ms),
    ensures
        not_later(t, r),
{
}

/// The ways in which a time is shown to the user.
pub open spec fn is_display_format(format: Seq<char>) -> bool {
    format == "%Y-%m-%d %H:%M:%S %:z"@ || format == "%H:%M:%S"@ || format == "%d %b %Y, %H:%M"@
}

/// Whether a time zone can be this many seconds ahead of UTC.
pub open spec fn is_offset(off: int) -> bool {
    -86_400 < off < 86_400
}

/// The whole minutes of an offset, rounded to the nearest and halves away from zero.
pub open spec fn offset_minutes(off: int) -> int {
    if off < 0 {
        -((30 - off) / 60)
    } else {
        (off + 30) / 60
    }
}

/// An offset as `+hh:mm` or `-hh:mm`.
pub open spec fn offset_text(off: int) -> Seq<char> {
    let minutes = if off < 0 {
        -offset_minutes(off)
    } else {
        offset_minutes(off)
    };
    seq![
        if off < 0 { '-' } else { '+' },
        text::digit(minutes / 600),
        text::digit(minutes / 60 % 10),
        ':',
        text::digit(minutes % 60 / 10),
        text::digit(minutes % 10),
    ]
}

/// The stamp that a clock shows which is `off` seconds ahead of UTC.
pub open spec fn clock_stamp(secs: int, nanos: u32, off: int) -> Seq<char> {
    rfc3339_millis((secs + off) as i64, nanos)
}

/// Whether such a clock shows a year of four digits, and a leap second as the last one
/// of its minute.
pub open spec fn shows_plainly(secs: int, nanos: u32, off: int) -> bool {
    &&& four_digit_year(secs + off)
    &&& nanos < 1_000_000_000 || off % 60 == 0
}

/// The short English name of a month that is written with two digits.
pub open spec fn month_name(tens: char, ones: char) -> Seq<char> {
    if tens == '1' {
        if ones == '0' {
            "Oct"@
        } else if ones == '1' {
            "Nov"@
        } else {
            "Dec"@
        }
    } else if ones == '1' {
        "Jan"@
    } else if ones == '2' {
        "Feb"@
    } else if ones == '3' {
        "Mar"@
    } else if ones == '4' {
        "Apr"@
    } else if ones == '5' {
        "May"@
    } else if ones == '6' {
        "Jun"@
    } else if ones == '7' {
        "Jul"@
    } else if ones == '8' {
        "Aug"@
    } else {
        "Sep"@
    }
}

/// What a format makes of the stamp on a clock that is `off` seconds ahead of UTC.
pub open spec fn clock_display(stamp: Seq<char>, off: int, format: Seq<char>) -> Seq<char> {
    if format == "%H:%M:%S"@ {
        stamp.subrange(11, 19)
    } else if format == "%d %b %Y, %H:%M"@ {
        stamp.subrange(8, 10) + " "@ + month_name(stamp[5], stamp[6]) + " "@ + stamp.subrange(0, 4)
            + ", "@ + stamp.subrange(11, 16)
    } else {
        stamp.subrange(0, 10) + " "@ + stamp.subrange(11, 19) + " "@ + offset_text(off)
    }
}

/// Whether `s` is what a format makes of a time at this offset.
pub open spec fn is_shown_at(
    s: Seq<char>,
    secs: i64,
    nanos: u32,
    format: Seq<char>,
    off: int,
) -> bool {
    &&& is_offset(off)
    &&& shows_plainly(secs as int, nanos, off) ==> {
        &&& is_stamp(clock_stamp(secs as int, nanos, off))
        &&& s == clock_display(clock_stamp(secs as int, nanos, off), off, format)
    }
}

/// Whether `s` is what a format makes of a time in some time zone.
pub open spec fn is_shown(s: Seq<char>, t: UtcTime, format: Seq<char>) -> bool {
    exists|off: int| #[trigger] is_shown_at(s, t.secs, t.nanos, format, off)
}

/// Whether `s` is the stamp of a time at this offset, with the offset behind it, and
/// what is read back from it: the time without what lies below a millisecond, as far as
/// whole minutes of the offset tell it. An offset that is written as a whole day is not
/// read.
pub open spec fn is_stamp_at(s: Seq<char>, secs: i64, nanos: u32, off: int) -> bool {
    &&& is_offset(off)
    &&& shows_plainly(secs as int, nanos, off) ==> {
        &&& is_stamp(clock_stamp(secs as int, nanos, off))
        &&& s == if off == 0 {
            clock_stamp(secs as int, nanos, off)
        } else {
            clock_stamp(secs as int, nanos, off).drop_last() + offset_text(off)
        }
        &&& if -1440 < offset_minutes(off) < 1440 {
            rfc3339_parsed(s) matches Ok(p) && p.0 == secs + off - 60 * offset_minutes(off) && p.1
                == whole_millis(nanos)
        } else {
            rfc3339_parsed(s) is Err
        }
    }
}

/// Whether `s` is the stamp of a time in some time zone, with its offset behind it.
pub open spec fn is_local_stamp(s: Seq<char>, t: UtcTime) -> bool {
    exists|off: int| #[trigger] is_stamp_at(s, t.secs, t.nanos, off)
}

/// Whether the year has four digits at every offset.
pub open spec fn four_digits_anywhere(secs: int) -> bool {
    four_digit_year(secs - 86_400) && four_digit_year(secs + 86_400)
}

/// `chrono::DateTime::<Local>::format` of a time. The time zone of the machine is not
/// known; claims that the text is what the format makes of the time at some offset of
/// less than a day, where the year there has four digits. Of a leap second at an offset
/// with odd seconds nothing is claimed.
#[verifier::external_body]
fn chrono_local_format(secs: i64, nanos: u32, format: &str) -> (r: String)
    requires
        is_readable(secs as int, nanos as int),
        is_display_format(format@),
    ensures
        is_shown(r@, (UtcTime { secs, nanos }), format@),
{
    chrono::DateTime::<chrono::Utc>::from_timestamp(secs, nanos).expect("a calendar time")
        .with_timezone(&chrono::Local).format(format).to_string()
}

/// `chrono::DateTime::<Local>::to_rfc3339_opts` of a time with milliseconds. The time
/// zone of the machine is not known; claims that the text is the stamp of the time at
/// some offset of less than a day, where the year there has four digits, and what
/// `parse_from_rfc3339` reads back from it. Of a leap second at an offset with odd
/// seconds nothing is claimed.
#[verifier::external_body]
fn chrono_local_rfc3339(secs: i64, nanos: u32) -> (r: String)
    requires
        is_readable(secs as int, nanos as int),
    ensures
        is_local_stamp(r@, (UtcTime { secs, nanos })),
{
    chrono::DateTime::<chrono::Utc>::from_timestamp(secs, nanos).expect("a calendar time")
        .with_timezone(&chrono::Local).to_rfc3339_opts(chrono::SecondsFormat::Millis, true)
}

/// A time in the time zone of the machine, in one of the ways it is shown. `None` where
/// the text is no RFC 3339 time.
pub fn local_display(value: &str, format: &str) -> (r: Option<String>)
    requires
        is_display_format(format@),
    ensures
        match parsed_time(value@) {
            Some(t) => r matches Some(shown) && is_shown(shown@, t, format@),
            None => r is None,
        },
{
    match parse_rfc3339(value) {
        Ok(t) => Some(chrono_local_format(t.secs, t.nanos, format)),
        Err(_) => None,
    }
}

/// A time with the offset of the time zone of the machine.
pub fn format_offset(value: &str) -> (r: Result<String>)
    ensures
        match rfc3339_parsed(value@) {
            Ok((secs, nanos)) => r matches Ok(stamp) && is_local_stamp(
                stamp@,
                (UtcTime { secs, nanos }),
            ),
            Err(reason) => fails(r, ErrorKind::Other, invalid_timestamp(value@, reason)),
        },
{
    match parse_rfc3339(value) {
        Ok(t) => Ok(chrono_local_rfc3339(t.secs, t.nanos)),
        Err(e) => Err(e),
    }
}

/// Whether `r` is the time `t` without what lies below a millisecond, up to half a
/// minute.
pub open spec fn is_about(r: UtcTime, t: UtcTime) -> bool {
    &&& -30 <= r.secs - t.secs <= 30
    &&& r.nanos == whole_millis(t.nanos)
}

/// What is read back from the stamp of a time in the time zone of the machine is that
/// time, without what lies below a millisecond and up to half a minute: a stamp has no
/// seconds of an offset. Only an offset that is written as a whole day is not read. Times
/// within a day of the first and the last year of four digits, and leap seconds, are left
/// out.
pub proof fn law_local_stamps_keep_the_time(s: Seq<char>, t: UtcTime)
    requires
        is_local_stamp(s, t),
        four_digits_anywhere(t.secs as int),
        t.nanos < 1_000_000_000,
    ensures
        match parsed_time(s) {
            Some(r) => is_about(r, t),
            None => text::has_suffix(s, "24:00"@),
        },
{
    let off = choose|off: int| #[trigger] is_stamp_at(s, t.secs, t.nanos, off);
    assert(shows_plainly(t.secs as int, t.nanos, off));
    if parsed_time(s) is None {
        reveal_strlit("24:00");
        assert(s.skip(s.len() - 5) =~= "24:00"@);
    }
}

/// A time `ms` milliseconds later is later by that much on the clock. A time inside a leap
/// second that it does not stay in goes on from the second before.
pub proof fn law_a_shift_adds_the_milliseconds(t: UtcTime, ms: nat, r: UtcTime)
    requires
        t.wf(),
        can_shift(t, ms),
        (r.secs as int, r.nanos as int) == shifted(t, ms),
    ensures
        t.nanos < 1_000_000_000 ==> r.nanos < 1_000_000_000 && r.secs * 1_000_000_000 + r.nanos
            == t.secs * 1_000_000_000 + t.nanos + ms * 1_000_000,
        t.nanos >= 1_000_000_000 && t.nanos + ms * 1_000_000 < 2_000_000_000 ==> r.secs == t.secs
            && r.nanos == t.nanos + ms * 1_000_000,
        t.nanos >= 1_000_000_000 && t.nanos + ms * 1_000_000 >= 2_000_000_000 ==> r.nanos
            < 1_000_000_000 && r.secs * 1_000_000_000 + r.nanos == t.secs * 1_000_000_000 + t.nanos
            - 1_000_000_000 + ms * 1_000_000,
{
}

/// Times stand in the order of their seconds, and within a second in that of their
/// nanoseconds; of two times, the earlier and the later one are these two.
pub proof fn law_times_stand_by_the_clock(a: UtcTime, b: UtcTime)
    ensures
        a.secs < b.secs ==> not_later(a, b) && !not_later(b, a),
        a.secs == b.secs ==> not_later(a, b) == (a.nanos <= b.nanos),
        not_later(a, b) ==> earlier_of(a, b) == a && later_of(a, b) == b,
        not_later(b, a) ==> earlier_of(a, b) == b && later_of(a, b) == a,
{
}

/// The seconds between two times outside of leap seconds are those of the clock, without
/// what is left of a second.
pub proof fn law_seconds_between_are_whole(from: UtcTime, to: UtcTime)
    requires
        from.nanos < 1_000_000_000,
        to.nanos < 1_000_000_000,
    ensures
        ({
            let passed = (to.secs * 1_000_000_000 + to.nanos) - (from.secs * 1_000_000_000
                + from.nanos);
            seconds_between(from, to) * 1_000_000_000 <= passed < (seconds_between(from, to) + 1)
                * 1_000_000_000
        }),
{
}

/// How a time on the clock is shown: the parts of its stamp, in the order that the format
/// gives them.
pub proof fn law_how_times_are_shown(stamp: Seq<char>, off: int, month: int)
    requires
        is_stamp(stamp),
        1 <= month <= 12,
        stamp[5] == text::digit(month / 10),
        stamp[6] == text::digit(month % 10),
    ensures
        clock_display(stamp, off, "%H:%M:%S"@) == seq![
            stamp[11],
            stamp[12],
            ':',
            stamp[14],
            stamp[15],
            ':',
            stamp[17],
            stamp[18],
        ],
        clock_display(stamp, off, "%d %b %Y, %H:%M"@) == seq![stamp[8], stamp[9], ' '] + seq![
            "Jan"@,
            "Feb"@,
            "Mar"@,
            "Apr"@,
            "May"@,
            "Jun"@,
            "Jul"@,
            "Aug"@,
            "Sep"@,
            "Oct"@,
            "Nov"@,
            "Dec"@,
        ][month - 1] + seq![
            ' ',
            stamp[0],
            stamp[1],
            stamp[2],
            stamp[3],
            ',',
            ' ',
            stamp[11],
            stamp[12],
            ':',
            stamp[14],
            stamp[15],
        ],
{
    reveal_strlit(" ");
    reveal_strlit(", ");
    reveal_strlit("%H:%M:%S");
    reveal_strlit("%d %b %Y, %H:%M");
    assert("%H:%M:%S"@.len() == 8 && "%d %b %Y, %H:%M"@.len() == 15);
    assert(clock_display(stamp, off, "%H:%M:%S"@) =~= seq![
        stamp[11],
        stamp[12],
        ':',
        stamp[14],
        stamp[15],
        ':',
        stamp[17],
        stamp[18],
    ]);
    let name = month_name(stamp[5], stamp[6]);
    assert(name == seq![
        "Jan"@,
        "Feb"@,
        "Mar"@,
        "Apr"@,
        "May"@,
        "Jun"@,
        "Jul"@,
        "Aug"@,
        "Sep"@,
        "Oct"@,
        "Nov"@,
        "Dec"@,
    ][month - 1]);
    assert(clock_display(stamp, off, "%d %b %Y, %H:%M"@) =~= seq![stamp[8], stamp[9], ' '] + name
        + seq![
        ' ',
        stamp[0],
        stamp[1],
        stamp[2],
        stamp[3],
        ',',
        ' ',
        stamp[11],
        stamp[12],
        ':',
        stamp[14],
        stamp[15],
    ]);
}

/// An offset is shown by its sign, its hours and its minutes.
pub proof fn law_how_offsets_are_shown(hours: int, minutes: int)
    requires
        0 <= hours < 24,
        0 <= minutes < 60,
    ensures
        offset_text(hours * 3600 + minutes * 60) == seq![
            '+',
            text::digit(hours / 10),
            text::digit(hours % 10),
            ':',
            text::digit(minutes / 10),
            text::digit(minutes % 10),
        ],
        hours + minutes > 0 ==> offset_text(-(hours * 3600 + minutes * 60)) == seq![
            '-',
            text::digit(hours / 10),
            text::digit(hours % 10),
            ':',
            text::digit(minutes / 10),
            text::digit(minutes % 10),
        ],
{
    let off = hours * 3600 + minutes * 60;
    let all = hours * 60 + minutes;
    assert(off == all * 60);
    assert(offset_minutes(off) == all);
    assert(all / 600 == hours / 10 && all / 60 % 10 == hours % 10);
    assert(all % 60 == minutes && all % 10 == minutes % 10);
    if off > 0 {
        assert(offset_minutes(-off) == -all);
    }
}

/// Times are stored to the millisecond, and what is below that is dropped.
pub proof fn law_stored_times_are_whole_milliseconds(nanos: u32)
    ensures
        whole_millis(nanos) % 1_000_000 == 0,
        whole_millis(nanos) <= nanos < whole_millis(nanos) + 1_000_000,
{
}

} // verus!
