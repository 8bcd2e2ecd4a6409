use quant_research_agent::calendar::format_timestamp;
use quant_research_agent::number::hundred;
use quant_research_agent::number::one;
use quant_research_agent::number::trading_days;
use quant_research_agent::number::zero;
use quant_research_agent::number::Number;
use quant_research_agent::text::count_text;
use quant_research_agent::text::join_texts;
use quant_research_agent::text::repeat_text;
use quant_research_agent::text::signed_text;
use quant_research_agent::text::text_precedes;
use quant_research_agent::text::trim_text;

fn number(x: f64) -> Number {
    Number { bits: x.to_bits() }
}

#[test]
fn constants_have_their_values() {
    assert_eq!(zero(), number(0.0));
    assert_eq!(one(), number(1.0));
    assert_eq!(hundred(), number(100.0));
    assert_eq!(trading_days(), number(252.0));
}

#[test]
fn numbers_compare_as_floats_do() {
    let values = [
        0.0,
        -0.0,
        1.0,
        -1.0,
        1.5,
        -1.5,
        100.0,
        1.0e-308,
        5.0e-324,
        -5.0e-324,
        1.0e308,
        f64::MAX,
        f64::MIN,
        f64::MIN_POSITIVE,
        f64::INFINITY,
        f64::NEG_INFINITY,
        f64::NAN,
        -f64::NAN,
    ];
    for a in values {
        assert_eq!(number(a).is_positive(), a > 0.0);
        for b in values {
            assert_eq!(number(a).is_below(number(b)), a < b);
            assert_eq!(number(a).is_level_with(number(b)), a == b);
            assert_eq!(number(a).is_at_most(number(b)), a <= b);
        }
    }
}

#[test]
fn numerals_are_decimal() {
    for n in [0usize, 7, 10, 42, 100, 1009, usize::MAX] {
        assert_eq!(count_text(n), n.to_string());
    }
    for i in [0i64, -1, 9, -10, 123456789, i64::MAX, i64::MIN] {
        assert_eq!(signed_text(i), i.to_string());
    }
}

#[test]
fn texts_join_and_repeat() {
    let list = vec!["a".to_string(), "".to_string(), "b".to_string()];
    assert_eq!(join_texts(&list, ", "), list.join(", "));
    assert_eq!(join_texts(&vec![], ", "), "");
    assert_eq!(join_texts(&vec!["x".to_string()], ", "), "x");
    assert_eq!(repeat_text("---|", 3), "---|---|---|");
    assert_eq!(repeat_text("---|", 0), "");
}

#[test]
fn texts_order_as_strings_do() {
    let texts = ["", "A", "AB", "B", "a", "é", "z", "\u{FFFD}", "\u{10000}", "2024-01-02", "2024-01-10"];
    for a in texts {
        for b in texts {
            assert_eq!(text_precedes(a, b), a < b);
        }
    }
}

#[test]
fn texts_trim_as_strings_do() {
    let texts = ["", " ", "a", " a", "a ", "\t a b \n", "\u{2003}x\u{3000}", "\u{200B}y", "  \n"];
    for text in texts {
        assert_eq!(trim_text(text), text.trim());
        assert_eq!(trim_text(&trim_text(text)), text.trim());
    }
}

#[test]
fn timestamps_become_dates() {
    assert_eq!(format_timestamp(0), "1970-01-01");
    assert_eq!(format_timestamp(-1), "1969-12-31");
    assert_eq!(format_timestamp(86399), "1970-01-01");
    assert_eq!(format_timestamp(951782400), "2000-02-29");
    assert_eq!(format_timestamp(1704067200), "2024-01-01");
    assert_eq!(format_timestamp(1704153599), "2024-01-01");
    assert_eq!(format_timestamp(253402300799), "9999-12-31");
    assert_eq!(format_timestamp(253402300800), "+10000-01-01");
    assert_eq!(format_timestamp(-62167219200), "0000-01-01");
    assert_eq!(format_timestamp(-62167219201), "-0001-12-31");
}

#[test]
fn timestamps_beyond_the_calendar_stay_numbers() {
    assert_eq!(format_timestamp(8210266876799), "+262142-12-31");
    assert_eq!(format_timestamp(8210266876800), "8210266876800");
    assert_eq!(format_timestamp(-8334601228800), "-262143-01-01");
    assert_eq!(format_timestamp(-8334601228801), "-8334601228801");
    assert_eq!(format_timestamp(i64::MAX), "9223372036854775807");
    assert_eq!(format_timestamp(i64::MIN), "-9223372036854775808");
}

#[test]
fn white_space_is_what_unicode_calls_so() {
    let white = |code: u32| {
        matches!(
            code,
            0x09..=0x0D
                | 0x20
                | 0x85
                | 0xA0
                | 0x1680
                | 0x2000..=0x200A
                | 0x2028
                | 0x2029
                | 0x202F
                | 0x205F
                | 0x3000
        )
    };
    for c in '\0'..=char::MAX {
        assert_eq!(trim_text(&c.to_string()).is_empty(), white(c as u32));
    }
}

#[test]
fn date_texts_are_ordered_as_their_days() {
    let times = [
        0i64,
        86399,
        86400,
        951782399,
        951782400,
        1704067200,
        1704153600,
        1706745600,
        32503680000,
        253402300799,
    ];
    for (i, t1) in times.iter().enumerate() {
        let first = format_timestamp(*t1);
        assert_eq!(first.len(), 10);
        assert_eq!(&first[4..5], "-");
        assert_eq!(&first[7..8], "-");
        for t2 in &times[i..] {
            let second = format_timestamp(*t2);
            assert!(first <= second);
            assert_eq!(first == second, t1 / 86400 == t2 / 86400);
        }
    }
}
