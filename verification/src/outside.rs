//! Calls into outside crates that several modules share.

use crate::text;
use crate::time::Timestamp;
use base64::Engine;
use vstd::prelude::*;

verus! {

/// The text that `base64::engine::general_purpose::URL_SAFE_NO_PAD` makes of bytes.
pub uninterp spec fn base64_text(bytes: Seq<u8>) -> Seq<char>;

/// What `base64::engine::general_purpose::URL_SAFE_NO_PAD` reads from a text: the
/// bytes, or the message of the error.
pub uninterp spec fn base64_bytes(text: Seq<char>) -> Result<Seq<u8>, Seq<char>>;

/// A text was read and held these bytes.
pub open spec fn reads_as(bytes: Seq<u8>) -> Result<Seq<u8>, Seq<char>> {
    Ok(bytes)
}

/// A character of URL-safe base64.
pub open spec fn is_base64_char(c: char) -> bool {
    ||| 'A' <= c <= 'Z'
    ||| 'a' <= c <= 'z'
    ||| '0' <= c <= '9'
    ||| c == '-'
    ||| c == '_'
}

/// URL-safe base64 without padding (`base64::Engine::encode`): letters, digits, hyphens
/// and underscores. Decoding the text gives the bytes back.
#[verifier::external_body]
pub(crate) fn base64_encode(bytes: &[u8]) -> (r: String)
    ensures
        r@ == base64_text(bytes@),
        base64_bytes(r@) == reads_as(bytes@),
        forall|i: int| 0 <= i < r@.len() ==> is_base64_char(#[trigger] r@[i]),
{
    base64::engine::general_purpose::URL_SAFE_NO_PAD.encode(bytes)
}

/// Reads URL-safe base64 without padding (`base64::Engine::decode`). What comes
/// out is a function of the text.
#[verifier::external_body]
pub(crate) fn base64_decode(text: &str) -> (r: Result<Vec<u8>, String>)
    ensures
        match r {
            Ok(b) => base64_bytes(text@) matches Ok(x) && x == b@,
            Err(e) => base64_bytes(text@) matches Err(x) && x == e@,
        },
{
    match base64::engine::general_purpose::URL_SAFE_NO_PAD.decode(text) {
        Ok(b) => Ok(b),
        Err(e) => Err(e.to_string()),
    }
}

/// A character of the text of a UUID.
pub open spec fn is_uuid_char(c: char) -> bool {
    ||| '0' <= c <= '9'
    ||| 'a' <= c <= 'f'
    ||| c == '-'
}

/// The form of the text of a UUID: 36 lowercase hexadecimal digits and hyphens.
pub open spec fn is_uuid_text(s: Seq<char>) -> bool {
    s.len() == 36 && forall|i: int| 0 <= i < s.len() ==> is_uuid_char(#[trigger] s[i])
}

/// A fresh time-ordered id (`uuid::Uuid::now_v7`, in its hyphenated lowercase
/// form). Which one it is rests on the clock and on chance.
#[verifier::external_body]
pub(crate) fn new_uuid() -> (r: String)
    ensures
        is_uuid_text(r@),
{
    uuid::Uuid::now_v7().to_string()
}

/// The time on the machine's clock (`chrono::Utc::now`). Nothing is claimed of it.
#[verifier::external_body]
pub(crate) fn clock_now() -> (r: Timestamp) {
    let now = chrono::Utc::now();
    Timestamp { secs: now.timestamp(), nanos: now.timestamp_subsec_nanos() }
}

/// What `chrono::DateTime::parse_from_rfc3339` reads from a text: the point in
/// time, or the message of the error.
pub uninterp spec fn rfc3339_time(text: Seq<char>) -> Result<Timestamp, Seq<char>>;

/// The text that `chrono::DateTime::to_rfc3339` makes of a point in time; none
/// where the calendar does not reach that far.
pub uninterp spec fn rfc3339_text(t: Timestamp) -> Option<Seq<char>>;

/// Reads an RFC 3339 date and time (`chrono::DateTime::parse_from_rfc3339`). What
/// comes out is a function of the text.
#[verifier::external_body]
pub(crate) fn parse_rfc3339(text: &str) -> (r: Result<Timestamp, String>)
    ensures
        match r {
            Ok(t) => rfc3339_time(text@) matches Ok(x) && x == t,
            Err(e) => rfc3339_time(text@) matches Err(x) && x == e@,
        },
{
    match chrono::DateTime::parse_from_rfc3339(text) {
        Ok(t) => Ok(Timestamp { secs: t.timestamp(), nanos: t.timestamp_subsec_nanos() }),
        Err(e) => Err(e.to_string()),
    }
}

/// The point in time lies in the years that have four digits, and not within a
/// leap second.
pub open spec fn four_digit_year(t: Timestamp) -> bool {
    -62_167_219_200 <= t.secs <= 253_402_300_799 && t.nanos < 1_000_000_000
}

/// A text was read and stood for this point in time.
pub open spec fn reads_as_time(t: Timestamp) -> Result<Timestamp, Seq<char>> {
    Ok(t)
}

/// Writes a point in time as RFC 3339 text in UTC (`chrono::DateTime::from_timestamp`
/// and `to_rfc3339`). It is written to the nanosecond, so that reading the text
/// gives the same point in time, where the year has four digits.
#[verifier::external_body]
pub(crate) fn format_rfc3339(t: Timestamp) -> (r: Option<String>)
    ensures
        match r {
            Some(s) => {
                &&& rfc3339_text(t) matches Some(x) && x == s@
                &&& four_digit_year(t) ==> rfc3339_time(s@) == reads_as_time(t)
            },
            None => rfc3339_text(t) is None && !four_digit_year(t),
        },
{
    match chrono::DateTime::from_timestamp(t.secs, t.nanos) {
        Some(d) => Some(d.to_rfc3339()),
        None => None,
    }
}

/// Every character is ASCII.
pub open spec fn is_ascii_text(s: Seq<char>) -> bool {
    forall|i: int| 0 <= i < s.len() ==> (#[trigger] s[i]) as u32 <= 0x7f
}

/// The text that `str::to_lowercase` makes of a text.
pub uninterp spec fn lowercase(s: Seq<char>) -> Seq<char>;

/// Lowercase by the rules of Unicode (`str::to_lowercase`). An ASCII text changes
/// letter by letter.
#[verifier::external_body]
pub(crate) fn to_lowercase(s: &str) -> (r: String)
    ensures
        r@ == lowercase(s@),
        is_ascii_text(s@) ==> r@ == s@.map_values(|c: char| text::ascii_lower(c)),
{
    s.to_lowercase()
}

/// The text that `char::to_uppercase` makes of a character.
pub uninterp spec fn unicode_upper(c: char) -> Seq<char>;

/// Uppercase of a character by the rules of Unicode (`char::to_uppercase`): one
/// character or several.
#[verifier::external_body]
pub(crate) fn unicode_uppercase(c: char) -> (r: Vec<char>)
    ensures
        r@ == unicode_upper(c),
{
    c.to_uppercase().collect()
}

/// The text that the `Debug` impl of `str` writes: between double quotes, with escapes.
pub uninterp spec fn debug_text(s: Seq<char>) -> Seq<char>;

/// The character stands for itself in `Debug` output: printable ASCII but for the double
/// quote and the backslash.
pub open spec fn debug_plain(c: char) -> bool {
    ' ' <= c <= '~' && c != '"' && c != '\\'
}

/// Quotes a text as the `Debug` impl of `str` does. A text of characters that stand for
/// themselves comes out between double quotes.
#[verifier::external_body]
pub(crate) fn debug_quote(s: &str) -> (r: String)
    ensures
        r@ == debug_text(s@),
        (forall|i: int| 0 <= i < s@.len() ==> debug_plain(#[trigger] s@[i])) ==> r@ == seq!['"']
            + s@ + seq!['"'],
{
    format!("{:?}", s)
}

/// The text that chrono writes into JSON for a moment; `None` where it is out of range.
pub uninterp spec fn instant_text(t: Timestamp) -> Option<Seq<char>>;

/// Writes a moment as chrono's serde impl does (`chrono::DateTime::to_rfc3339_opts` with
/// automatic fractions and `Z`). Moments that chrono cannot hold give `None`. What is
/// written of a moment in a year of four digits, and below the second no leap second,
/// reads back as that moment.
#[verifier::external_body]
pub(crate) fn format_instant(t: Timestamp) -> (r: Option<String>)
    ensures
        match r {
            Some(s) => {
                &&& instant_text(t) matches Some(x) && x == s@
                &&& four_digit_year(t) ==> rfc3339_time(s@) == reads_as_time(t)
            },
            None => instant_text(t) is None && !four_digit_year(t),
        },
{
    match chrono::DateTime::from_timestamp(t.secs, t.nanos) {
        Some(d) => Some(d.to_rfc3339_opts(chrono::SecondsFormat::AutoSi, true)),
        None => None,
    }
}

/// The text that chrono's `%Y-%m-%dT%H-%M-%SZ` makes of a moment; `None` where it is out
/// of range.
pub uninterp spec fn stamp_text(t: Timestamp) -> Option<Seq<char>>;

/// A stamp of an earlier second stands before this one in the order of texts.
pub open spec fn after_earlier_stamps(t: Timestamp, stamp: Seq<char>) -> bool {
    forall|u: Timestamp|
        four_digit_year(u) && u.secs < t.secs ==> (#[trigger] stamp_text(u) matches Some(x)
            && text::precedes(x, stamp))
}

/// Writes a moment as `%Y-%m-%dT%H-%M-%SZ` (`chrono::DateTime::format`). In the years of
/// four digits every part is padded with zeros to a fixed width, from the year down to the
/// second, so that the text has twenty characters and texts stand in the order of time.
#[verifier::external_body]
pub(crate) fn format_stamp(t: Timestamp) -> (r: Option<String>)
    ensures
        match r {
            Some(s) => {
                &&& stamp_text(t) matches Some(x) && x == s@
                &&& four_digit_year(t) ==> s@.len() == 20 && after_earlier_stamps(t, s@)
            },
            None => stamp_text(t) is None && !four_digit_year(t),
        },
{
    match chrono::DateTime::from_timestamp(t.secs, t.nanos) {
        Some(d) => Some(d.format("%Y-%m-%dT%H-%M-%SZ").to_string()),
        None => None,
    }
}

} // verus!
