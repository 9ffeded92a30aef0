//! What the library takes from outside: the clock, fresh identifiers, calendar
//! text, JSON members and the quoting of strings.

use chrono::TimeZone;
use vstd::prelude::*;

use crate::number;
use crate::text;

verus! {

/// Whether `c` is a lower-case hexadecimal digit.
pub open spec fn is_lower_hex(c: char) -> bool {
    '0' <= c <= '9' || 'a' <= c <= 'f'
}

/// The shape of a hyphenated UUID: 36 characters, four hyphens, else
/// lower-case hexadecimal digits.
pub open spec fn is_uuid_text(s: Seq<char>) -> bool {
    &&& s.len() == 36
    &&& forall|i: int|
        0 <= i < 36 ==> if i == 8 || i == 13 || i == 18 || i == 23 {
            #[trigger] s[i] == '-'
        } else {
            is_lower_hex(s[i])
        }
}

/// Calls `uuid::Uuid::new_v4` and its `Display`. Which identifier comes is
/// chance; claimed is only that it has the hyphenated lower-case form.
#[verifier::external_body]
pub(crate) fn fresh_id() -> (r: String)
    ensures
        is_uuid_text(r@),
{
    uuid::Uuid::new_v4().to_string()
}

/// Calls `chrono::Utc::now` and `DateTime::timestamp`: the seconds of the
/// system clock since the Unix epoch. Claimed is only that they are not
/// negative: an earlier clock makes `now` panic.
#[verifier::external_body]
pub(crate) fn unix_seconds() -> (r: i64)
    ensures
        r >= 0,
{
    chrono::Utc::now().timestamp()
}

/// Whether a Unix time lies in the years that chrono's calendar holds: from the
/// beginning of -262143 to the end of 262142.
pub open spec fn has_date(seconds: i64) -> bool {
    -8_334_601_228_800 <= seconds <= 8_210_266_876_799
}

/// A number below a hundred as two digits.
pub open spec fn two_digits(n: int) -> Seq<char> {
    seq![number::digit_char((n / 10) as nat), number::digit_char((n % 10) as nat)]
}

/// The hour and the minute of a Unix time on a clock that is `offset` seconds
/// ahead of UTC.
pub open spec fn time_of_day(seconds: i64, offset: int) -> Seq<char> {
    let second = (seconds + offset) % 86400;
    two_digits(second / 3600) + ":"@ + two_digits(second % 3600 / 60)
}

/// The calendar text of a Unix time under a pattern of chrono, on a clock that
/// is `offset` seconds ahead of UTC.
pub uninterp spec fn calendar_text(seconds: i64, pattern: Seq<char>, offset: int) -> Seq<char>;

/// Calls `chrono::Local.timestamp_opt` and `DateTime::format`: the local
/// calendar text of a Unix time, `None` exactly where the time is outside
/// chrono's calendar. The text is that of this time under this pattern at some
/// offset from UTC of less than a day, named `calendar_text`; under `%H:%M` it
/// is the hour and the minute at that offset. Which offset it is is left
/// unsaid: it depends on the machine's time zone. A malformed pattern would
/// panic, so two patterns are admitted.
#[verifier::external_body]
pub(crate) fn local_time(seconds: i64, pattern: &str) -> (r: Option<String>)
    requires
        pattern@ == "%H:%M"@ || pattern@ == "%Y-%m-%d %H:%M:%S"@,
    ensures
        r is Some <==> has_date(seconds),
        r matches Some(t) ==> exists|offset: int|
            -86400 < offset < 86400 && t@ == #[trigger] calendar_text(seconds, pattern@, offset)
                && (pattern@ == "%H:%M"@ ==> t@ == time_of_day(seconds, offset)),
{
    chrono::Local.timestamp_opt(seconds, 0).single().map(|t| t.format(pattern).to_string())
}

/// What `chrono::DateTime::parse_from_rfc3339` makes of a text: the Unix time
/// in seconds, or the text of its error.
pub uninterp spec fn rfc3339_instant(s: Seq<char>) -> Result<i64, Seq<char>>;

/// Calls `chrono::DateTime::parse_from_rfc3339` and `DateTime::timestamp`. The
/// result is a function of the text, named `rfc3339_instant`.
#[verifier::external_body]
pub(crate) fn parse_rfc3339(s: &str) -> (r: Result<i64, String>)
    ensures
        match r {
            Ok(t) => rfc3339_instant(s@) == Ok::<i64, Seq<char>>(t),
            Err(e) => rfc3339_instant(s@) == Err::<i64, Seq<char>>(e@),
        },
{
    chrono::DateTime::parse_from_rfc3339(s).map(|t| t.timestamp()).map_err(|e| e.to_string())
}

/// The string that the member `key` of the JSON object `document` holds:
/// `None` where `document` is no JSON object, has no such member, or the
/// member is no string.
pub uninterp spec fn json_string_member(document: Seq<char>, key: Seq<char>) -> Option<Seq<char>>;

/// Calls `serde_json::from_str`, indexes the value by `key` and calls
/// `Value::as_str`. The result is a function of both texts, named
/// `json_string_member`.
#[verifier::external_body]
pub(crate) fn string_member(document: &str, key: &str) -> (r: Option<String>)
    ensures
        text::opt_text(r) == json_string_member(document@, key@),
{
    serde_json::from_str::<serde_json::Value>(document).unwrap_or_default()[key]
        .as_str()
        .map(str::to_string)
}

/// The integer that the member `key` of the JSON object `document` holds:
/// `None` where `document` is no JSON object, has no such member, or the
/// member is no integer in the range of `i64`.
pub uninterp spec fn json_integer_member(document: Seq<char>, key: Seq<char>) -> Option<i64>;

/// Calls `serde_json::from_str`, indexes the value by `key` and calls
/// `Value::as_i64`. The result is a function of both texts, named
/// `json_integer_member`.
#[verifier::external_body]
pub(crate) fn integer_member(document: &str, key: &str) -> (r: Option<i64>)
    ensures
        r == json_integer_member(document@, key@),
{
    serde_json::from_str::<serde_json::Value>(document).unwrap_or_default()[key].as_i64()
}

/// The text of a string between quotation marks, with the escapes that the
/// standard library's `Debug` writes.
pub uninterp spec fn quoted(s: Seq<char>) -> Seq<char>;

/// Calls the `Debug` formatting of `str`. The result is a function of the
/// string, named `quoted`.
#[verifier::external_body]
pub(crate) fn quote(s: &str) -> (r: String)
    ensures
        r@ == quoted(s@),
{
    format!("{:?}", s)
}

/// What the standard library says of a text that is no `i64`.
pub uninterp spec fn i64_error(s: Seq<char>) -> Seq<char>;

/// Calls `str::parse::<i64>` and the `Display` of its error. The message is a
/// function of the text, named `i64_error`; it is asked for only where the
/// text is no integer in range, so that there is an error.
#[verifier::external_body]
pub(crate) fn i64_error_text(s: &str) -> (r: String)
    requires
        number::i64_of(s@) is None,
    ensures
        r@ == i64_error(s@),
{
    s.parse::<i64>().map_or_else(|e| e.to_string(), |n| n.to_string())
}

/// A clock shows the hour and the minute in two digits each: on a clock that is
/// `offset` seconds ahead, the time that is so many whole days, hours, minutes
/// and seconds after the epoch there shows those hours and minutes.
pub proof fn law_clocks_show_hours_and_minutes(
    seconds: i64,
    offset: int,
    days: int,
    hour: nat,
    minute: nat,
    second: nat,
)
    requires
        hour < 24,
        minute < 60,
        second < 60,
        seconds + offset == 86400 * days + 3600 * hour + 60 * minute + second,
    ensures
        time_of_day(seconds, offset).len() == 5,
        time_of_day(seconds, offset)[0] as u32 == '0' as u32 + hour / 10,
        time_of_day(seconds, offset)[1] as u32 == '0' as u32 + hour % 10,
        time_of_day(seconds, offset)[2] == ':',
        time_of_day(seconds, offset)[3] as u32 == '0' as u32 + minute / 10,
        time_of_day(seconds, offset)[4] as u32 == '0' as u32 + minute % 10,
{
    reveal_strlit(":");
    let rest = 3600 * hour + 60 * minute + second;
    assert((seconds + offset) % 86400 == rest);
    assert(rest / 3600 == hour);
    assert(rest % 3600 == 60 * minute + second);
    assert(rest % 3600 / 60 == minute);
    number::law_decimal_text_is_written_by_hand(0, (hour / 10) as nat);
    number::law_decimal_text_is_written_by_hand(0, (hour % 10) as nat);
    number::law_decimal_text_is_written_by_hand(0, (minute / 10) as nat);
    number::law_decimal_text_is_written_by_hand(0, (minute % 10) as nat);
}

} // verus!
