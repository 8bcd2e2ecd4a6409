//! The calls into other crates and into std that the library rests on.
//!
//! Each wrapper's contract is taken on trust; its comment says of which function.

use vstd::prelude::*;
use chrono::TimeZone;

verus! {

/// Letters, digits and `-`, `_`, `.`, `~` stand for themselves in a URL.
pub open spec fn unreserved(b: u8) -> bool {
    ||| 48 <= b <= 57
    ||| 65 <= b <= 90
    ||| 97 <= b <= 122
    ||| b == 45
    ||| b == 46
    ||| b == 95
    ||| b == 126
}

/// An upper-case hexadecimal digit.
pub open spec fn hex_digit(n: int) -> char {
    if n < 10 {
        (48 + n) as char
    } else {
        (55 + n) as char
    }
}

/// One byte in a URL: itself, or a percent sign and its two hexadecimal digits.
pub open spec fn percent_byte(b: u8) -> Seq<char> {
    if unreserved(b) {
        seq![b as char]
    } else {
        seq!['%', hex_digit(b as int / 16), hex_digit(b as int % 16)]
    }
}

/// Bytes in a URL, one after the other.
pub open spec fn percent_bytes(bytes: Seq<u8>) -> Seq<char>
    decreases bytes.len(),
{
    if bytes.len() == 0 {
        Seq::empty()
    } else {
        percent_bytes(bytes.drop_last()) + percent_byte(bytes.last())
    }
}

/// A text in a URL: the bytes of its UTF-8 form.
pub open spec fn percent_encoded(text: Seq<char>) -> Seq<char> {
    percent_bytes(vstd::utf8::encode_utf8(text))
}

/// Calls `urlencoding::encode`.
///
/// Taken on trust: every byte of the argument's UTF-8 form other than letters,
/// digits and `-`, `_`, `.`, `~` comes out as a percent sign and two upper-case
/// hexadecimal digits, and those come out as they are.
#[verifier::external_body]
pub(crate) fn percent_encode(text: &str) -> (r: String)
    ensures
        r@ == percent_encoded(text@),
{
    urlencoding::encode(text).into_owned()
}

/// A leap year of the Gregorian calendar.
pub open spec fn leap_year(y: int) -> bool {
    y % 4 == 0 && (y % 100 != 0 || y % 400 == 0)
}

/// The days of a month.
pub open spec fn month_length(y: int, m: int) -> int {
    if m == 2 {
        if leap_year(y) {
            29
        } else {
            28
        }
    } else if m == 4 || m == 6 || m == 9 || m == 11 {
        30
    } else {
        31
    }
}

/// The days of a year in front of a month.
pub open spec fn days_before_month(y: int, m: int) -> int
    decreases m,
{
    if m <= 1 {
        0
    } else {
        days_before_month(y, m - 1) + month_length(y, m - 1)
    }
}

/// A date of the proleptic Gregorian calendar.
pub open spec fn is_date(y: int, m: int, d: int) -> bool {
    1 <= m <= 12 && 1 <= d <= month_length(y, m)
}

/// The number of a date, the first of January of the year 1 being day 1.
pub open spec fn day_number(y: int, m: int, d: int) -> int {
    365 * (y - 1) + (y - 1) / 4 - (y - 1) / 100 + (y - 1) / 400 + days_before_month(y, m) + d
}

/// The day of a UNIX timestamp in UTC; timestamp 0 lies on day 719163.
pub open spec fn timestamp_day(ts: int) -> int {
    ts / 86400 + 719163
}

/// A numeral filled up with zeros on the left.
pub open spec fn zero_padded(n: nat, width: nat) -> Seq<char> {
    let digits = crate::text::decimal(n);
    if digits.len() < width {
        Seq::new((width - digits.len()) as nat, |i: int| '0') + digits
    } else {
        digits
    }
}

/// A year in four digits or more, with a sign outside of 0 to 9999.
pub open spec fn year_text(y: int) -> Seq<char> {
    if y < 0 {
        "-"@ + zero_padded((-y) as nat, 4)
    } else if y > 9999 {
        "+"@ + zero_padded(y as nat, 4)
    } else {
        zero_padded(y as nat, 4)
    }
}

/// A date as year, month and day with hyphens between them.
pub open spec fn date_text(y: int, m: int, d: int) -> Seq<char> {
    year_text(y) + "-"@ + zero_padded(m as nat, 2) + "-"@ + zero_padded(d as nat, 2)
}

/// A year that `chrono` can represent.
pub open spec fn year_in_range(y: int) -> bool {
    -262143 <= y <= 262142
}

/// Calls `chrono::Utc.timestamp_opt` and renders the moment with `DateTime::format`.
///
/// Taken on trust: where the UTC day of the timestamp falls into a year that
/// `chrono` can represent, the result is that day as `YYYY-MM-DD`; elsewhere
/// there is none.
#[verifier::external_body]
pub(crate) fn utc_date(ts: i64) -> (r: Option<String>)
    ensures
        r matches Some(s) ==> exists|y: int, m: int, d: int|
            #![trigger date_text(y, m, d)]
            is_date(y, m, d) && year_in_range(y) && day_number(y, m, d) == timestamp_day(ts as int)
                && s@ == date_text(y, m, d),
        r is None ==> forall|y: int, m: int, d: int|
            #![trigger is_date(y, m, d)]
            is_date(y, m, d) && day_number(y, m, d) == timestamp_day(ts as int)
                ==> !year_in_range(y),
{
    chrono::Utc.timestamp_opt(ts, 0).single().map(|dt| dt.format("%Y-%m-%d").to_string())
}

/// What `str::to_uppercase` gives for a text.
pub uninterp spec fn uppercase(text: Seq<char>) -> Seq<char>;

/// Only ASCII characters.
pub open spec fn is_ascii_text(text: Seq<char>) -> bool {
    forall|i: int| 0 <= i < text.len() ==> (#[trigger] text[i] as int) < 128
}

/// An ASCII letter in upper case, any other character as it is.
pub open spec fn ascii_upper(c: char) -> char {
    if 'a' <= c && c <= 'z' {
        (c as int - 32) as char
    } else {
        c
    }
}

/// A text with its ASCII letters in upper case.
pub open spec fn ascii_uppercase(text: Seq<char>) -> Seq<char> {
    text.map_values(|c: char| ascii_upper(c))
}

/// Calls `str::to_uppercase`.
///
/// Taken on trust: the result depends on the argument's characters alone, and
/// in a text of ASCII characters `a` to `z` become `A` to `Z` and the others
/// stay. What becomes of other characters is left to Unicode.
#[verifier::external_body]
pub(crate) fn to_uppercase(text: &str) -> (r: String)
    ensures
        r@ == uppercase(text@),
        is_ascii_text(text@) ==> r@ == ascii_uppercase(text@),
{
    text.to_uppercase()
}

/// The characters with the Unicode property `White_Space`.
pub open spec fn white_space(c: char) -> bool {
    let code = c as int;
    ||| 0x09 <= code <= 0x0D
    ||| code == 0x20
    ||| code == 0x85
    ||| code == 0xA0
    ||| code == 0x1680
    ||| 0x2000 <= code <= 0x200A
    ||| code == 0x2028
    ||| code == 0x2029
    ||| code == 0x202F
    ||| code == 0x205F
    ||| code == 0x3000
}

/// Calls `char::is_whitespace`.
///
/// Taken on trust: it answers whether the character has the Unicode property
/// `White_Space`.
#[verifier::external_body]
pub(crate) fn is_white_space(c: char) -> (r: bool)
    ensures
        r == white_space(c),
{
    c.is_whitespace()
}

} // verus!
