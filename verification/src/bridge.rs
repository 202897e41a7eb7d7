//! The calls into `uuid` and `chrono`. Each function here is trusted: its
//! contract is what the crate's source shows of the call, and Verus does not
//! read its body.
use vstd::prelude::*;
use vstd::arithmetic::power::pow;
use crate::types::{max_day, min_day, Timestamp};

verus! {

/// The lower-case hexadecimal digit of a value below 16.
pub open spec fn hex_digit(v: int) -> char {
    seq!['0', '1', '2', '3', '4', '5', '6', '7', '8', '9', 'a', 'b', 'c', 'd', 'e', 'f'][v]
}

/// The `k`-th hexadecimal digit of `id`, counting from the most significant.
pub open spec fn nibble(id: u128, k: int) -> int {
    (id as int / pow(16, (31 - k) as nat)) % 16
}

/// How many of the four hyphens of a UUID's text stand before position `i`.
pub open spec fn hyphens_before(i: int) -> int {
    (if i > 8 { 1int } else { 0int }) + (if i > 13 { 1int } else { 0int }) + (if i > 18 {
        1int
    } else {
        0int
    }) + (if i > 23 { 1int } else { 0int })
}

/// The hyphenated lower-case text of a UUID, e.g.
/// `67e55044-10b1-426f-9247-bb680e5fe0c8`: its 32 hexadecimal digits, most
/// significant first, with hyphens after the 8th, 12th, 16th and 20th.
pub open spec fn uuid_text(id: u128) -> Seq<char> {
    Seq::new(
        36,
        |i: int|
            if i == 8 || i == 13 || i == 18 || i == 23 {
                '-'
            } else {
                hex_digit(nibble(id, i - hyphens_before(i)))
            },
    )
}

/// What `uuid::Uuid::parse_str` makes of a text, as the UUID's 128 bits.
pub uninterp spec fn uuid_parsed(s: Seq<char>) -> Option<u128>;

/// What `chrono::DateTime::<Utc>::to_rfc3339` writes for a moment.
pub uninterp spec fn rfc3339_text(secs: int, nanos: int) -> Seq<char>;

/// The moment that `chrono::DateTime::parse_from_rfc3339` reads from a text,
/// in UTC, as whole seconds and nanoseconds.
pub uninterp spec fn rfc3339_instant(s: Seq<char>) -> Option<(i64, u32)>;

/// What `chrono::NaiveDate::format("%Y-%m-%d")` writes for a day, the day
/// counted from January 1 of year 1.
pub uninterp spec fn iso_date_text(day: int) -> Seq<char>;

/// A random (version 4, RFC 4122 variant) UUID's 128 bits: the version
/// nibble, bits 76 to 79, is 4, and the variant, bits 62 and 63, is `10`.
pub open spec fn is_random_uuid(id: u128) -> bool {
    &&& (id as int / 0x1000_0000_0000_0000_0000) % 16 == 4
    &&& (id as int / 0x4000_0000_0000_0000) % 4 == 2
}

/// `uuid::Uuid::new_v4`: a fresh random UUID, as its 128 bits. Claimed: it
/// carries the version-4 and variant bits, which `new_v4` sets on every call
/// (random bits masked, then `0x4000_8000_0000_0000_0000` or-ed in). Which
/// random bits it has is not claimed.
#[verifier::external_body]
pub(crate) fn fresh_id() -> (id: u128)
    ensures
        is_random_uuid(id),
{
    uuid::Uuid::new_v4().as_u128()
}

/// `chrono::Utc::now`: the current moment, read from the system clock (which
/// chrono refuses, with a panic, when it reads before 1970). Claimed: it is a
/// moment that `chrono::DateTime<Utc>` can hold, at or after the Unix epoch,
/// and not inside a leap second. Which moment it is, is not claimed.
#[verifier::external_body]
pub(crate) fn now_utc() -> (t: Timestamp)
    ensures
        t.valid(),
        t.secs >= 0,
        t.nanos < 1_000_000_000,
{
    let now = chrono::Utc::now();
    Timestamp { secs: now.timestamp(), nanos: now.timestamp_subsec_nanos() }
}

/// `Uuid::from_u128(id).to_string()`: claimed to be the hyphenated lower-case
/// text of the UUID (`Display` goes through `LowerHex` to the hyphenated form).
#[verifier::external_body]
pub(crate) fn uuid_to_text(id: u128) -> (s: String)
    ensures
        s@ == uuid_text(id),
{
    uuid::Uuid::from_u128(id).to_string()
}

/// `uuid::Uuid::parse_str`, as the UUID's 128 bits. Claimed: the result is
/// the name `uuid_parsed` of the text, and the hyphenated text of a UUID reads
/// back as that UUID. Which other texts it accepts is left unsaid.
#[verifier::external_body]
pub(crate) fn uuid_from_text(s: &str) -> (r: Option<u128>)
    ensures
        r == uuid_parsed(s@),
        forall|id: u128| s@ == #[trigger] uuid_text(id) ==> r == Some(id),
{
    match uuid::Uuid::parse_str(s) {
        Ok(u) => Some(u.as_u128()),
        Err(_) => None,
    }
}

/// `DateTime::<Utc>::from_timestamp(..).to_rfc3339()`: the text named
/// `rfc3339_text` of the moment. The moment must be one chrono can hold, so
/// that `from_timestamp` gives `Some`.
#[verifier::external_body]
pub(crate) fn rfc3339_of(t: Timestamp) -> (s: String)
    requires
        t.valid(),
    ensures
        s@ == rfc3339_text(t.secs as int, t.nanos as int),
{
    chrono::DateTime::from_timestamp(t.secs, t.nanos).unwrap().to_rfc3339()
}

/// `DateTime::parse_from_rfc3339` followed by `with_timezone(&Utc)`, as whole
/// seconds and nanoseconds. Claimed: the result is the name `rfc3339_instant`
/// of the text; a moment read is one chrono can hold; and the text that
/// `to_rfc3339` writes for a moment of a year from 0 to 9999 reads back as
/// that moment. Which other texts it accepts is left unsaid.
#[verifier::external_body]
pub(crate) fn instant_from_text(s: &str) -> (r: Option<Timestamp>)
    ensures
        match r {
            Some(t) => rfc3339_instant(s@) == Some((t.secs, t.nanos)) && t.valid(),
            None => rfc3339_instant(s@) is None,
        },
        forall|t: Timestamp|
            t.valid() && t.four_digit_year() && s@ == #[trigger] rfc3339_text(
                t.secs as int,
                t.nanos as int,
            ) ==> r == Some(t),
{
    match chrono::DateTime::parse_from_rfc3339(s) {
        Ok(d) => {
            let u = d.with_timezone(&chrono::Utc);
            Some(Timestamp { secs: u.timestamp(), nanos: u.timestamp_subsec_nanos() })
        },
        Err(_) => None,
    }
}

/// `DateTime::<Utc>::with_timezone(&Local).offset().local_minus_utc()`: how
/// many seconds this machine's clock is ahead of UTC at the moment. Which
/// offset that is depends on the machine's time zone and is not claimed;
/// chrono's `FixedOffset` always holds less than a day either way.
#[verifier::external_body]
pub(crate) fn local_offset(t: Timestamp) -> (off: i32)
    requires
        t.valid(),
    ensures
        -86400 < off < 86400,
{
    chrono::DateTime::from_timestamp(t.secs, t.nanos).unwrap().with_timezone(
        &chrono::Local,
    ).offset().local_minus_utc()
}

/// `NaiveDate::from_num_days_from_ce_opt(day).format("%Y-%m-%d")`: the text
/// named `iso_date_text` of the day.
#[verifier::external_body]
pub(crate) fn date_key(day: i32) -> (s: String)
    requires
        min_day() <= day <= max_day(),
    ensures
        s@ == iso_date_text(day as int),
{
    chrono::NaiveDate::from_num_days_from_ce_opt(day).unwrap().format("%Y-%m-%d").to_string()
}

} // verus!
