//! Timestamps as dates.

use vstd::prelude::*;
use crate::outside::utc_date;
use crate::text::signed_text;

verus! {

/// The day before the first of January.
pub open spec fn year_base(y: int) -> int {
    365 * (y - 1) + (y - 1) / 4 - (y - 1) / 100 + (y - 1) / 400
}

/// The days of a year.
pub open spec fn year_length(y: int) -> int {
    if crate::outside::leap_year(y) {
        366
    } else {
        365
    }
}

/// A year starts where the year before it ends.
proof fn lemma_next_year(y: int)
    ensures
        year_base(y + 1) == year_base(y) + year_length(y),
{
    assert(y / 4 == (y - 1) / 4 + (if y % 4 == 0 { 1int } else { 0int }));
    assert(y / 100 == (y - 1) / 100 + (if y % 100 == 0 { 1int } else { 0int }));
    assert(y / 400 == (y - 1) / 400 + (if y % 400 == 0 { 1int } else { 0int }));
}

/// Years do not overlap.
proof fn lemma_years_in_order(y1: int, y2: int)
    requires
        y1 < y2,
    ensures
        year_base(y1) + year_length(y1) <= year_base(y2),
    decreases y2 - y1,
{
    lemma_next_year(y1);
    if y1 + 1 < y2 {
        lemma_years_in_order(y1 + 1, y2);
    }
}

/// Months do not overlap.
proof fn lemma_months_in_order(y: int, m1: int, m2: int)
    requires
        1 <= m1 < m2,
    ensures
        crate::outside::days_before_month(y, m1) + crate::outside::month_length(y, m1)
            <= crate::outside::days_before_month(y, m2),
    decreases m2 - m1,
{
    if m1 + 1 < m2 {
        lemma_months_in_order(y, m1, m2 - 1);
    }
}

/// A date lies in its year.
proof fn lemma_day_within_year(y: int, m: int, d: int)
    requires
        crate::outside::is_date(y, m, d),
    ensures
        1 <= crate::outside::days_before_month(y, m) + d <= year_length(y),
{
    reveal_with_fuel(crate::outside::days_before_month, 13);
    assert(crate::outside::days_before_month(y, 13) == year_length(y));
    lemma_months_in_order(y, m, 13);
    if m > 1 {
        lemma_months_in_order(y, 1, m);
    }
}

/// Earlier dates have smaller numbers.
pub proof fn lemma_day_number_monotone(y1: int, m1: int, d1: int, y2: int, m2: int, d2: int)
    requires
        crate::outside::is_date(y1, m1, d1),
        crate::outside::is_date(y2, m2, d2),
        y1 < y2 || (y1 == y2 && (m1 < m2 || (m1 == m2 && d1 < d2))),
    ensures
        crate::outside::day_number(y1, m1, d1) < crate::outside::day_number(y2, m2, d2),
{
    lemma_day_within_year(y1, m1, d1);
    lemma_day_within_year(y2, m2, d2);
    if y1 < y2 {
        lemma_years_in_order(y1, y2);
    } else if m1 < m2 {
        lemma_months_in_order(y1, m1, m2);
    }
}

/// A day number stands for one date only.
pub proof fn lemma_day_number_injective(y1: int, m1: int, d1: int, y2: int, m2: int, d2: int)
    requires
        crate::outside::is_date(y1, m1, d1),
        crate::outside::is_date(y2, m2, d2),
        crate::outside::day_number(y1, m1, d1) == crate::outside::day_number(y2, m2, d2),
    ensures
        y1 == y2,
        m1 == m2,
        d1 == d2,
{
    if y1 < y2 || (y1 == y2 && (m1 < m2 || (m1 == m2 && d1 < d2))) {
        lemma_day_number_monotone(y1, m1, d1, y2, m2, d2);
    }
    if y2 < y1 || (y1 == y2 && (m2 < m1 || (m1 == m2 && d2 < d1))) {
        lemma_day_number_monotone(y2, m2, d2, y1, m1, d1);
    }
}

/// The date lies on the UTC day of a timestamp, in a year that can be represented.
pub open spec fn dates_timestamp(ts: int, y: int, m: int, d: int) -> bool {
    &&& crate::outside::is_date(y, m, d)
    &&& crate::outside::year_in_range(y)
    &&& crate::outside::day_number(y, m, d) == crate::outside::timestamp_day(ts)
}

/// A timestamp in words: its UTC day as `YYYY-MM-DD`, or the bare number where
/// that day cannot be represented.
pub open spec fn timestamp_text(ts: int) -> Seq<char> {
    if exists|y: int, m: int, d: int| dates_timestamp(ts, y, m, d) {
        let (y, m, d) = choose|y: int, m: int, d: int| dates_timestamp(ts, y, m, d);
        crate::outside::date_text(y, m, d)
    } else {
        crate::text::signed_decimal(ts)
    }
}

/// A timestamp is written as the date that it falls on.
pub proof fn law_timestamp_is_written_as_its_date(ts: int, y: int, m: int, d: int)
    requires
        dates_timestamp(ts, y, m, d),
    ensures
        timestamp_text(ts) == crate::outside::date_text(y, m, d),
{
    let (a, b, c) = choose|a: int, b: int, c: int| dates_timestamp(ts, a, b, c);
    lemma_day_number_injective(y, m, d, a, b, c);
}

/// Converts a UNIX timestamp (seconds) into a `YYYY-MM-DD` date.
pub fn format_timestamp(ts: i64) -> (r: String)
    ensures
        r@ == timestamp_text(ts as int),
{
    match utc_date(ts) {
        Some(text) => {
            proof {
                let (y, m, d) = choose|y: int, m: int, d: int|
                    #![trigger crate::outside::date_text(y, m, d)]
                    crate::outside::is_date(y, m, d) && crate::outside::year_in_range(y)
                        && crate::outside::day_number(y, m, d) == crate::outside::timestamp_day(
                        ts as int,
                    ) && text@ == crate::outside::date_text(y, m, d);
                assert(dates_timestamp(ts as int, y, m, d));
                law_timestamp_is_written_as_its_date(ts as int, y, m, d);
            }
            text
        },
        None => {
            assert(!exists|y: int, m: int, d: int| dates_timestamp(ts as int, y, m, d));
            signed_text(ts)
        },
    }
}

/// The year of a day, looked for from a year on that starts before it.
proof fn lemma_year_of_day(n: int, from: int) -> (y: int)
    requires
        year_base(from) < n,
    ensures
        from <= y,
        year_base(y) < n <= year_base(y) + year_length(y),
    decreases n - year_base(from),
{
    if n <= year_base(from) + year_length(from) {
        from
    } else {
        lemma_next_year(from);
        lemma_year_of_day(n, from + 1)
    }
}

/// The month of a day of the year, looked for from a month on that starts before it.
proof fn lemma_month_of_day(y: int, k: int, from: int) -> (m: int)
    requires
        1 <= from <= 12,
        crate::outside::days_before_month(y, from) < k <= year_length(y),
    ensures
        from <= m <= 12,
        crate::outside::days_before_month(y, m) < k,
        k <= crate::outside::days_before_month(y, m) + crate::outside::month_length(y, m),
    decreases 12 - from,
{
    if k <= crate::outside::days_before_month(y, from) + crate::outside::month_length(y, from) {
        from
    } else {
        if from == 12 {
            reveal_with_fuel(crate::outside::days_before_month, 13);
            assert(crate::outside::days_before_month(y, 13) == year_length(y));
        }
        lemma_month_of_day(y, k, from + 1)
    }
}

/// The date of a day.
proof fn lemma_date_of_day(n: int, from: int) -> (date: (int, int, int))
    requires
        year_base(from) < n,
    ensures
        from <= date.0,
        crate::outside::is_date(date.0, date.1, date.2),
        crate::outside::day_number(date.0, date.1, date.2) == n,
{
    let y = lemma_year_of_day(n, from);
    let k = n - year_base(y);
    let m = lemma_month_of_day(y, k, 1);
    (y, m, k - crate::outside::days_before_month(y, m))
}

/// The timestamps that fall on a date of a representable year are those from
/// the first second of the first such year to the last second of the last.
pub proof fn law_timestamps_in_range_have_a_date(ts: int)
    ensures
        (exists|y: int, m: int, d: int| dates_timestamp(ts, y, m, d)) <==> -8334601228800 <= ts
            <= 8210266876799,
{
    let n = crate::outside::timestamp_day(ts);
    if -8334601228800 <= ts <= 8210266876799 {
        assert(year_base(-262143) < n <= year_base(262143));
        let (y, m, d) = lemma_date_of_day(n, -262143);
        lemma_day_within_year(y, m, d);
        if y > 262142 {
            if y > 262143 {
                lemma_years_in_order(262143, y);
            }
        }
        assert(dates_timestamp(ts, y, m, d));
    }
    if exists|y: int, m: int, d: int| dates_timestamp(ts, y, m, d) {
        let (y, m, d) = choose|y: int, m: int, d: int| dates_timestamp(ts, y, m, d);
        lemma_day_within_year(y, m, d);
        lemma_years_in_order(y, 262143);
        if -262143 < y {
            lemma_years_in_order(-262143, y);
        }
        assert(year_base(-262143) < n <= year_base(262143));
    }
}

/// A text that differs from another first at a place where its character is
/// smaller precedes it.
proof fn lemma_first_difference(a: Seq<char>, b: Seq<char>, k: int)
    requires
        0 <= k < a.len(),
        k < b.len(),
        forall|i: int| 0 <= i < k ==> #[trigger] a[i] == b[i],
        (a[k] as int) < (b[k] as int),
    ensures
        crate::text::precedes(a, b),
    decreases k,
{
    if k > 0 {
        assert(a[0] == b[0]);
        let rest_a = a.skip(1);
        let rest_b = b.skip(1);
        assert forall|i: int| 0 <= i < k - 1 implies #[trigger] rest_a[i] == rest_b[i] by {
            assert(a[i + 1] == b[i + 1]);
        }
        lemma_first_difference(rest_a, rest_b, k - 1);
    }
}

/// A number below a hundred in two digits.
proof fn lemma_two_digits(n: nat)
    requires
        n < 100,
    ensures
        crate::outside::zero_padded(n, 2) == seq![
            crate::text::digit_char(n / 10),
            crate::text::digit_char(n % 10),
        ],
{
    reveal_with_fuel(crate::text::decimal, 2);
    assert(crate::outside::zero_padded(n, 2) =~= seq![
        crate::text::digit_char(n / 10),
        crate::text::digit_char(n % 10),
    ]);
}

/// A number below ten thousand in four digits.
proof fn lemma_four_digits(n: nat)
    requires
        n < 10000,
    ensures
        crate::outside::zero_padded(n, 4) == seq![
            crate::text::digit_char(n / 1000),
            crate::text::digit_char(n / 100 % 10),
            crate::text::digit_char(n / 10 % 10),
            crate::text::digit_char(n % 10),
        ],
{
    reveal_with_fuel(crate::text::decimal, 4);
    assert(n / 10 / 10 == n / 100);
    assert(n / 10 / 10 / 10 == n / 1000);
    assert(crate::outside::zero_padded(n, 4) =~= seq![
        crate::text::digit_char(n / 1000),
        crate::text::digit_char(n / 100 % 10),
        crate::text::digit_char(n / 10 % 10),
        crate::text::digit_char(n % 10),
    ]);
}

/// A date of a year of four digits, character by character.
spec fn plain_date_text(y: int, m: int, d: int) -> Seq<char> {
    seq![
        crate::text::digit_char((y / 1000) as nat),
        crate::text::digit_char((y / 100 % 10) as nat),
        crate::text::digit_char((y / 10 % 10) as nat),
        crate::text::digit_char((y % 10) as nat),
        '-',
        crate::text::digit_char((m / 10) as nat),
        crate::text::digit_char((m % 10) as nat),
        '-',
        crate::text::digit_char((d / 10) as nat),
        crate::text::digit_char((d % 10) as nat),
    ]
}

proof fn lemma_plain_date_text(y: int, m: int, d: int)
    requires
        crate::outside::is_date(y, m, d),
        0 <= y < 10000,
    ensures
        crate::outside::date_text(y, m, d) == plain_date_text(y, m, d),
{
    reveal_strlit("-");
    lemma_four_digits(y as nat);
    lemma_two_digits(m as nat);
    lemma_two_digits(d as nat);
    assert(crate::outside::date_text(y, m, d) =~= plain_date_text(y, m, d));
}

/// Of two numbers below ten thousand, the smaller one has the smaller digit
/// where their digits first differ.
proof fn lemma_first_digit(a: int, b: int)
    requires
        0 <= a < b < 10000,
    ensures
        ({
            ||| a / 1000 < b / 1000
            ||| a / 1000 == b / 1000 && a / 100 % 10 < b / 100 % 10
            ||| a / 1000 == b / 1000 && a / 100 % 10 == b / 100 % 10 && a / 10 % 10 < b / 10 % 10
            ||| a / 1000 == b / 1000 && a / 100 % 10 == b / 100 % 10 && a / 10 % 10 == b / 10 % 10
                && a % 10 < b % 10
        }),
{
    assert(a == 1000 * (a / 1000) + 100 * (a / 100 % 10) + 10 * (a / 10 % 10) + a % 10) by {
        assert(a / 100 / 10 == a / 1000);
        assert(a / 10 / 10 == a / 100);
    }
    assert(b == 1000 * (b / 1000) + 100 * (b / 100 % 10) + 10 * (b / 10 % 10) + b % 10) by {
        assert(b / 100 / 10 == b / 1000);
        assert(b / 10 / 10 == b / 100);
    }
}

/// Two digits are in the order of their values.
proof fn lemma_digit_chars(a: int, b: int)
    requires
        0 <= a < b < 10,
    ensures
        (crate::text::digit_char(a as nat) as int) < (crate::text::digit_char(b as nat) as int),
{
}

/// The text of an earlier year precedes that of a later one.
proof fn lemma_year_texts_in_order(y1: int, m1: int, d1: int, y2: int, m2: int, d2: int)
    requires
        0 <= y1 < y2 < 10000,
    ensures
        crate::text::precedes(plain_date_text(y1, m1, d1), plain_date_text(y2, m2, d2)),
{
    let a = plain_date_text(y1, m1, d1);
    let b = plain_date_text(y2, m2, d2);
    lemma_first_digit(y1, y2);
    if y1 / 1000 < y2 / 1000 {
        lemma_digit_chars(y1 / 1000, y2 / 1000);
        lemma_first_difference(a, b, 0);
    } else if y1 / 100 % 10 < y2 / 100 % 10 {
        lemma_digit_chars(y1 / 100 % 10, y2 / 100 % 10);
        lemma_first_difference(a, b, 1);
    } else if y1 / 10 % 10 < y2 / 10 % 10 {
        lemma_digit_chars(y1 / 10 % 10, y2 / 10 % 10);
        lemma_first_difference(a, b, 2);
    } else {
        lemma_digit_chars(y1 % 10, y2 % 10);
        lemma_first_difference(a, b, 3);
    }
}

/// Within a year, the text of an earlier date precedes that of a later one.
proof fn lemma_day_texts_in_order(y: int, m1: int, d1: int, m2: int, d2: int)
    requires
        1 <= m1 <= m2 <= 12,
        1 <= d1 <= 31,
        1 <= d2 <= 31,
        m1 < m2 || d1 < d2,
    ensures
        crate::text::precedes(plain_date_text(y, m1, d1), plain_date_text(y, m2, d2)),
{
    let a = plain_date_text(y, m1, d1);
    let b = plain_date_text(y, m2, d2);
    if m1 / 10 < m2 / 10 {
        lemma_digit_chars(m1 / 10, m2 / 10);
        lemma_first_difference(a, b, 5);
    } else if m1 < m2 {
        lemma_digit_chars(m1 % 10, m2 % 10);
        lemma_first_difference(a, b, 6);
    } else if d1 / 10 < d2 / 10 {
        lemma_digit_chars(d1 / 10, d2 / 10);
        lemma_first_difference(a, b, 8);
    } else {
        lemma_digit_chars(d1 % 10, d2 % 10);
        lemma_first_difference(a, b, 9);
    }
}

/// The text of an earlier date precedes that of a later one.
proof fn lemma_date_texts_in_order(y1: int, m1: int, d1: int, y2: int, m2: int, d2: int)
    requires
        crate::outside::is_date(y1, m1, d1),
        crate::outside::is_date(y2, m2, d2),
        0 <= y1 < 10000,
        0 <= y2 < 10000,
        y1 < y2 || (y1 == y2 && (m1 < m2 || (m1 == m2 && d1 < d2))),
    ensures
        crate::text::precedes(
            crate::outside::date_text(y1, m1, d1),
            crate::outside::date_text(y2, m2, d2),
        ),
{
    lemma_plain_date_text(y1, m1, d1);
    lemma_plain_date_text(y2, m2, d2);
    if y1 < y2 {
        lemma_year_texts_in_order(y1, m1, d1, y2, m2, d2);
    } else {
        lemma_day_texts_in_order(y1, m1, d1, m2, d2);
    }
}

/// Four digits, two digits and two digits, with hyphens between them.
pub open spec fn is_date_shaped(text: Seq<char>) -> bool {
    &&& text.len() == 10
    &&& forall|i: int|
        0 <= i < 10 ==> if i == 4 || i == 7 {
            #[trigger] text[i] == '-'
        } else {
            '0' <= text[i] && text[i] <= '9'
        }
}

/// The date of a timestamp from 1970 to 9999.
proof fn lemma_plain_timestamp(ts: int) -> (date: (int, int, int))
    requires
        0 <= ts < 253402300800,
    ensures
        dates_timestamp(ts, date.0, date.1, date.2),
        1970 <= date.0 < 10000,
        timestamp_text(ts) == crate::outside::date_text(date.0, date.1, date.2),
        is_date_shaped(timestamp_text(ts)),
{
    let n = crate::outside::timestamp_day(ts);
    assert(year_base(1970) < n <= year_base(10000));
    let (y, m, d) = lemma_date_of_day(n, 1970);
    lemma_day_within_year(y, m, d);
    if y > 10000 {
        lemma_years_in_order(10000, y);
    }
    law_timestamp_is_written_as_its_date(ts, y, m, d);
    lemma_plain_date_text(y, m, d);
    (y, m, d)
}

/// Until the year 10000, timestamps are ordered as texts as they are in time:
/// each is written in the shape `YYYY-MM-DD`, two are written alike exactly
/// where they fall on the same day, and else the text of the earlier precedes
/// that of the later.
pub proof fn law_date_texts_are_ordered_as_their_days(t1: int, t2: int)
    requires
        0 <= t1 <= t2 < 253402300800,
    ensures
        is_date_shaped(timestamp_text(t1)),
        is_date_shaped(timestamp_text(t2)),
        timestamp_text(t1) == timestamp_text(t2) <==> t1 / 86400 == t2 / 86400,
        timestamp_text(t1) == timestamp_text(t2) || crate::text::precedes(
            timestamp_text(t1),
            timestamp_text(t2),
        ),
{
    let (y1, m1, d1) = lemma_plain_timestamp(t1);
    let (y2, m2, d2) = lemma_plain_timestamp(t2);
    if t1 / 86400 == t2 / 86400 {
        lemma_day_number_injective(y1, m1, d1, y2, m2, d2);
    } else {
        if y2 < y1 || (y1 == y2 && (m2 < m1 || (m1 == m2 && d2 < d1))) {
            lemma_day_number_monotone(y2, m2, d2, y1, m1, d1);
        }
        lemma_date_texts_in_order(y1, m1, d1, y2, m2, d2);
        crate::text::lemma_precedes_irreflexive(timestamp_text(t1));
    }
}

} // verus!
