//! Wall-clock instants: RFC 3339 text read into Unix nanoseconds, the current
//! time, and the ambient cooldown that compares the two.
//!
//! An instant is modelled as an `int` count of nanoseconds since the Unix epoch,
//! the value `time::OffsetDateTime::unix_timestamp_nanos` gives.
use vstd::prelude::*;

verus! {

/// Nanoseconds per second.
pub const NANOS_PER_SECOND: i128 = 1_000_000_000;

/// The instant that RFC 3339 `text` denotes, in Unix nanoseconds, or `None`
/// where the text is not RFC 3339.
pub uninterp spec fn rfc3339_unix_nanos(text: Seq<char>) -> Option<int>;

/// The range of `unix_timestamp_nanos`: an `i64` count of seconds times 10^9,
/// plus a nanosecond below 10^9.
pub open spec fn nanos_in_range(n: int) -> bool {
    -9_223_372_036_854_775_808_000_000_000 <= n < 9_223_372_036_854_775_808_000_000_000
}

/// Calls `time::OffsetDateTime::parse` with the `Rfc3339` description and reads
/// `unix_timestamp_nanos` of what it parsed. Claimed: the answer is
/// `rfc3339_unix_nanos` of the text (`None` for a parse error), and a parsed
/// instant lies in the range that `unix_timestamp_nanos` has by its definition.
#[verifier::external_body]
fn parse_rfc3339_unix_nanos(text: &str) -> (r: Option<i128>)
    ensures
        match r {
            Some(n) => rfc3339_unix_nanos(text@) == Some(n as int) && nanos_in_range(n as int),
            None => rfc3339_unix_nanos(text@) is None,
        },
{
    match time::OffsetDateTime::parse(text, &time::format_description::well_known::Rfc3339) {
        Ok(at) => Some(at.unix_timestamp_nanos()),
        Err(_) => None,
    }
}

/// Calls `time::OffsetDateTime::now_utc` and reads `unix_timestamp_nanos`. The
/// value is whatever the system clock says; claimed is only the range that
/// `unix_timestamp_nanos` has by its definition.
#[verifier::external_body]
fn utc_now_unix_nanos() -> (r: i128)
    ensures
        nanos_in_range(r as int),
{
    time::OffsetDateTime::now_utc().unix_timestamp_nanos()
}

pub open spec fn is_digit(c: char) -> bool {
    '0' <= c && c <= '9'
}

/// RFC 3339 text of a UTC instant as the `Rfc3339` format writes it:
/// `YYYY-MM-DDTHH:MM:SS`, then optionally `.` and fraction digits, then `Z`.
pub open spec fn utc_rfc3339_stamp(t: Seq<char>) -> bool {
    &&& t.len() >= 20
    &&& is_digit(t[0]) && is_digit(t[1]) && is_digit(t[2]) && is_digit(t[3])
    &&& t[4] == '-' && is_digit(t[5]) && is_digit(t[6])
    &&& t[7] == '-' && is_digit(t[8]) && is_digit(t[9])
    &&& t[10] == 'T' && is_digit(t[11]) && is_digit(t[12])
    &&& t[13] == ':' && is_digit(t[14]) && is_digit(t[15])
    &&& t[16] == ':' && is_digit(t[17]) && is_digit(t[18])
    &&& t.last() == 'Z'
    &&& t.len() > 20 ==> (t[19] == '.' && forall|i: int| 20 <= i < t.len() - 1 ==> is_digit(#[trigger] t[i]))
}

/// Calls `time::OffsetDateTime::now_utc` and formats it with `format(&Rfc3339)`;
/// `None` where formatting reports an error. Which instant the text names
/// depends on the system clock and is not claimed. Claimed is the shape the
/// `Rfc3339` formatter writes for a UTC value (its source writes the
/// four-digit year, `-`, month, `-`, day, `T`, hour, `:`, minute, `:`, second,
/// each zero-padded, then `.` and the fraction digits where the nanosecond is
/// not zero, then `Z` for a UTC offset), which `now_utc` always has.
#[verifier::external_body]
fn utc_now_rfc3339() -> (r: Option<String>)
    ensures
        r matches Some(t) ==> utc_rfc3339_stamp(t@),
{
    match time::OffsetDateTime::now_utc().format(&time::format_description::well_known::Rfc3339) {
        Ok(text) => Some(text),
        Err(_) => None,
    }
}

/// The text stamped when the clock cannot be formatted.
pub open spec fn epoch_rfc3339() -> Seq<char> {
    seq!['1', '9', '7', '0', '-', '0', '1', '-', '0', '1', 'T', '0', '0', ':', '0', '0', ':', '0', '0', 'Z']
}

/// The current time as RFC 3339 text in UTC, or the Unix epoch where the
/// clock cannot be formatted. Which instant it names depends on the clock.
pub fn now_rfc3339() -> (r: String)
    ensures
        utc_rfc3339_stamp(r@),
{
    match utc_now_rfc3339() {
        Some(text) => text,
        None => {
            proof {
                reveal_strlit("1970-01-01T00:00:00Z");
            }
            String::from_str("1970-01-01T00:00:00Z")
        },
    }
}

/// Whole seconds from `earlier` to `later` (both in nanoseconds), rounded
/// toward zero, as `SignedDuration::whole_seconds` reports the difference.
pub open spec fn whole_seconds_between(later: int, earlier: int) -> int {
    let d = later - earlier;
    if d >= 0 {
        d / 1_000_000_000
    } else {
        -((-d) / 1_000_000_000)
    }
}

/// A `u64` read as `i64` by `as`: values above `i64::MAX` wrap to negatives.
pub open spec fn u64_as_i64(v: u64) -> int {
    if v <= i64::MAX {
        v as int
    } else {
        v - 0x1_0000_0000_0000_0000
    }
}

/// Whether the ambient cooldown has run out at instant `now`: it has where no
/// emission was recorded, where the recorded text is not RFC 3339, and otherwise
/// when at least `cooldown_seconds` whole seconds have passed since it.
pub open spec fn spec_cooldown_elapsed(last_emitted: Option<Seq<char>>, now: int, cooldown_seconds: u64) -> bool {
    match last_emitted {
        None => true,
        Some(text) => match rfc3339_unix_nanos(text) {
            None => true,
            Some(at) => whole_seconds_between(now, at) >= u64_as_i64(cooldown_seconds),
        },
    }
}

pub open spec fn opt_str_view(o: Option<&str>) -> Option<Seq<char>> {
    match o {
        Some(s) => Some(s@),
        None => None,
    }
}

/// The cooldown decision at a given instant `now_nanos` (Unix nanoseconds).
pub fn cooldown_elapsed_at(last_emitted: Option<&str>, now_nanos: i128, cooldown_seconds: u64) -> (r: bool)
    requires
        nanos_in_range(now_nanos as int),
    ensures
        r == spec_cooldown_elapsed(opt_str_view(last_emitted), now_nanos as int, cooldown_seconds),
{
    let text = match last_emitted {
        None => return true,
        Some(text) => text,
    };
    let at = match parse_rfc3339_unix_nanos(text) {
        None => return true,
        Some(at) => at,
    };
    let d: i128 = now_nanos - at;
    let seconds: i128 = if d >= 0 {
        d / NANOS_PER_SECOND
    } else {
        let magnitude: i128 = -d;
        -(magnitude / NANOS_PER_SECOND)
    };
    let cooldown: i128 = if cooldown_seconds <= 9_223_372_036_854_775_807u64 {
        cooldown_seconds as i128
    } else {
        cooldown_seconds as i128 - 18_446_744_073_709_551_616i128
    };
    seconds >= cooldown
}

/// Whether the ambient cooldown has run out now: `true` where nothing was
/// recorded or the record is not RFC 3339; otherwise the decision of
/// `cooldown_elapsed_at` at whatever instant the clock reported.
pub fn ambient_cooldown_elapsed(last_emitted: Option<&str>, cooldown_seconds: u64) -> (r: bool)
    ensures
        last_emitted is None ==> r,
        (last_emitted matches Some(text) && rfc3339_unix_nanos(text@) is None) ==> r,
        exists|now: int|
            nanos_in_range(now) && r == spec_cooldown_elapsed(
                opt_str_view(last_emitted),
                now,
                cooldown_seconds,
            ),
{
    let now = utc_now_unix_nanos();
    cooldown_elapsed_at(last_emitted, now, cooldown_seconds)
}

} // verus!
