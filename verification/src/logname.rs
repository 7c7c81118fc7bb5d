//! The name of the log of a session.

use time::{OffsetDateTime, UtcOffset};
use vstd::prelude::*;

use crate::text::{decimal, decimal_i128, lemma_decimal_injective};

verus! {

/// The earliest instant that has a date, in nanoseconds since the epoch: the start of
/// the year -9999.
pub const EARLIEST_NANOS: i128 = -377_705_116_800_000_000_000;

/// The latest instant that has a date, in nanoseconds since the epoch: the end of the
/// year 9999.
pub const LATEST_NANOS: i128 = 253_402_300_799_999_999_999;

/// The largest offset from UTC, in seconds: 25:59:59.
pub const LARGEST_OFFSET_SECONDS: i32 = 93_599;

/// Whether an instant has a date.
pub open spec fn has_date(unix_nanos: int) -> bool {
    EARLIEST_NANOS <= unix_nanos <= LATEST_NANOS
}

/// The instant as it is read in a time zone: the zone does not move it, but it has to
/// have a date there too.
pub open spec fn in_zone_of(unix_nanos: int, offset_seconds: int) -> Option<int> {
    if has_date(unix_nanos) && -LARGEST_OFFSET_SECONDS <= offset_seconds <= LARGEST_OFFSET_SECONDS
        && has_date(unix_nanos + offset_seconds * 1_000_000_000) {
        Some(unix_nanos)
    } else {
        None
    }
}

/// Reads the clock with `time::OffsetDateTime::now_utc` and gives the instant with
/// `unix_timestamp_nanos`. Every instant that comes back has a date. Which one it is is
/// left unsaid: it rests on the clock.
#[verifier::external_body]
fn now_unix_nanos() -> (r: i128)
    ensures
        has_date(r as int),
{
    OffsetDateTime::now_utc().unix_timestamp_nanos()
}

/// Moves an instant to a time zone with `time::OffsetDateTime::checked_to_offset` and
/// gives it again with `unix_timestamp_nanos`; `from_unix_timestamp_nanos` and
/// `UtcOffset::from_whole_seconds` make the two arguments. The instant stays what it is.
/// `None` comes back where the instant has no date, where the offset is too large, or
/// where the date in that zone lies outside the years from -9999 to 9999.
#[verifier::external_body]
fn in_zone(unix_nanos: i128, offset_seconds: i32) -> (r: Option<i128>)
    ensures
        match (r, in_zone_of(unix_nanos as int, offset_seconds as int)) {
            (Some(nanos), Some(expected)) => nanos == expected,
            (None, None) => true,
            _ => false,
        },
{
    let zone = UtcOffset::from_whole_seconds(offset_seconds).ok()?;
    let instant = OffsetDateTime::from_unix_timestamp_nanos(unix_nanos).ok()?;
    let local = instant.checked_to_offset(zone)?;
    Some(local.unix_timestamp_nanos())
}

/// Whole milliseconds, without the rest.
pub open spec fn millis_of(nanos: int) -> int {
    if nanos >= 0 {
        nanos / 1_000_000
    } else {
        -((-nanos) / 1_000_000)
    }
}

/// The time stamp of an instant that is read in a time zone, in milliseconds since the
/// epoch; `None` where the instant has no date there.
pub fn local_timestamp_millis(unix_nanos: i128, offset_seconds: i32) -> (r: Option<i128>)
    ensures
        match (r, in_zone_of(unix_nanos as int, offset_seconds as int)) {
            (Some(millis), Some(nanos)) => millis == millis_of(nanos),
            (None, None) => true,
            _ => false,
        },
        r matches Some(millis) ==> {
            &&& unix_nanos >= 0 ==> 0 <= unix_nanos - millis * 1_000_000 < 1_000_000
            &&& unix_nanos < 0 ==> 0 <= millis * 1_000_000 - unix_nanos < 1_000_000
        },
{
    match in_zone(unix_nanos, offset_seconds) {
        Some(nanos) => {
            if nanos >= 0 {
                Some(nanos / 1_000_000)
            } else {
                let magnitude: i128 = -nanos;
                Some(-(magnitude / 1_000_000))
            }
        },
        None => None,
    }
}

/// The text of an optional name, empty where there is none.
pub open spec fn name_or_empty(name: Option<String>) -> Seq<char> {
    match name {
        Some(name) => name@,
        None => Seq::empty(),
    }
}

/// The name of a log: the binary, the configured chip and the time stamp.
pub open spec fn log_name_of(binary: Seq<char>, chip: Seq<char>, millis: int) -> Seq<char> {
    binary + "_"@ + chip + "_"@ + decimal(millis)
}

/// Writes the name of a log.
pub fn log_name(binary: &str, chip: &Option<String>, millis: i128) -> (r: String)
    ensures
        r@ == log_name_of(binary@, name_or_empty(*chip), millis as int),
        chip matches Some(chip) ==> r@ == binary@ + "_"@ + chip@ + "_"@ + decimal(millis as int),
        chip is None ==> r@ == binary@ + "_"@ + "_"@ + decimal(millis as int),
{
    let mut out = binary.to_owned();
    out.append("_");
    if let Some(chip) = chip {
        out.append(chip.as_str());
    }
    out.append("_");
    out.append(decimal_i128(millis).as_str());
    assert(out@ =~= log_name_of(binary@, name_or_empty(*chip), millis as int));
    out
}

/// Writes the name of a log that starts at an instant, which is read in a time zone;
/// `None` where the instant has no date there.
pub fn log_name_at(
    binary: &str,
    chip: &Option<String>,
    unix_nanos: i128,
    offset_seconds: i32,
) -> (r: Option<String>)
    ensures
        match (r, in_zone_of(unix_nanos as int, offset_seconds as int)) {
            (Some(name), Some(nanos)) => name@ == log_name_of(
                binary@,
                name_or_empty(*chip),
                millis_of(nanos),
            ),
            (None, None) => true,
            _ => false,
        },
{
    match local_timestamp_millis(unix_nanos, offset_seconds) {
        Some(millis) => Some(log_name(binary, chip, millis)),
        None => None,
    }
}

/// Writes the name of a log that starts now; `None` where the clock shows a time that
/// has no date in the time zone.
pub fn log_name_now(binary: &str, chip: &Option<String>, offset_seconds: i32) -> (r: Option<String>)
    ensures
        exists|nanos: int|
            has_date(nanos) && match (r, #[trigger] in_zone_of(nanos, offset_seconds as int)) {
                (Some(name), Some(instant)) => name@ == log_name_of(
                    binary@,
                    name_or_empty(*chip),
                    millis_of(instant),
                ),
                (None, None) => true,
                _ => false,
            },
{
    let nanos = now_unix_nanos();
    let r = log_name_at(binary, chip, nanos, offset_seconds);
    assert(has_date(nanos as int) && (r is Some <==> in_zone_of(
        nanos as int,
        offset_seconds as int,
    ) is Some));
    r
}

/// The time zone has no part in the time stamp of an instant that has a date there.
pub proof fn lemma_zone_is_immaterial(unix_nanos: int, a: int, b: int)
    requires
        in_zone_of(unix_nanos, a) is Some,
        in_zone_of(unix_nanos, b) is Some,
    ensures
        in_zone_of(unix_nanos, a) == in_zone_of(unix_nanos, b),
{
}

/// At UTC every instant that has a date gets a time stamp.
pub proof fn lemma_utc_has_date(unix_nanos: int)
    requires
        has_date(unix_nanos),
    ensures
        in_zone_of(unix_nanos, 0) == Some(unix_nanos),
{
}

/// Logs of one binary on one chip have the same name only where they start in the same
/// millisecond.
pub proof fn lemma_log_names_differ(binary: Seq<char>, chip: Seq<char>, a: int, b: int)
    requires
        log_name_of(binary, chip, a) == log_name_of(binary, chip, b),
    ensures
        a == b,
{
    let head = binary + "_"@ + chip + "_"@;
    assert(log_name_of(binary, chip, a).skip(head.len() as int) =~= decimal(a));
    assert(log_name_of(binary, chip, b).skip(head.len() as int) =~= decimal(b));
    lemma_decimal_injective(a, b);
}

/// A time stamp counts the whole milliseconds between the epoch and the instant: what is
/// left over is less than a millisecond and lies on the side away from the epoch.
pub proof fn lemma_millis(nanos: int)
    ensures
        nanos >= 0 ==> 0 <= nanos - millis_of(nanos) * 1_000_000 < 1_000_000,
        nanos < 0 ==> 0 <= millis_of(nanos) * 1_000_000 - nanos < 1_000_000,
        millis_of(-nanos) == -millis_of(nanos),
{
}

/// A time zone never moves an instant. An instant is read in it exactly where the offset is
/// less than 26 hours and the instant has a date both at UTC and there.
pub proof fn lemma_zone_keeps_instant(unix_nanos: int, offset_seconds: int)
    ensures
        in_zone_of(unix_nanos, offset_seconds) matches Some(instant) ==> instant == unix_nanos,
        in_zone_of(unix_nanos, offset_seconds) is Some <==> {
            &&& -26 * 3600 < offset_seconds < 26 * 3600
            &&& has_date(unix_nanos)
            &&& has_date(unix_nanos + offset_seconds * 1_000_000_000)
        },
{
}

/// The name holds the binary, the chip and the time stamp, in this order and unchanged,
/// with an underscore between them.
pub proof fn lemma_log_name_parts(binary: Seq<char>, chip: Option<String>, millis: int)
    ensures
        ({
            let shown = name_or_empty(chip);
            let name = log_name_of(binary, shown, millis);
            let first = binary.len() as int;
            let second = first + 1 + shown.len();
            &&& chip matches Some(chip) ==> shown == chip@
            &&& chip is None ==> shown.len() == 0
            &&& name.len() == second + 1 + decimal(millis).len()
            &&& name.take(first) == binary
            &&& name[first] == '_'
            &&& name.subrange(first + 1, second) == shown
            &&& name[second] == '_'
            &&& name.skip(second + 1) == decimal(millis)
        }),
{
    reveal_strlit("_");
    let shown = name_or_empty(chip);
    let name = log_name_of(binary, shown, millis);
    let first = binary.len() as int;
    let second = first + 1 + shown.len();
    assert(name.take(first) =~= binary);
    assert(name.subrange(first + 1, second) =~= shown);
    assert(name.skip(second + 1) =~= decimal(millis));
}

} // verus!
