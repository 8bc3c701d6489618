use sarfimax::decimal::i64_to_decimal;
use sarfimax::parse::{
    bool_error_message, int_error_message, parse_bool, parse_i64, parse_u64, parse_usize,
    IntErrorKind,
};
use sarfimax::text::{is_blank, same_text, white_space};

const SAMPLES: &[&str] = &[
    "", "0", "7", "+", "-", "+0", "-0", "+12", "-12", "12a", "a12", " 1", "1 ", "007",
    "18446744073709551615", "18446744073709551616", "99999999999999999999x",
    "9223372036854775807", "9223372036854775808", "-9223372036854775808",
    "-9223372036854775809", "++1", "+-1", "-+1", "１２", "4294967296",
];

fn kind_of(e: &std::num::ParseIntError) -> IntErrorKind {
    match e.kind() {
        std::num::IntErrorKind::Empty => IntErrorKind::Empty,
        std::num::IntErrorKind::InvalidDigit => IntErrorKind::InvalidDigit,
        std::num::IntErrorKind::PosOverflow => IntErrorKind::PosOverflow,
        std::num::IntErrorKind::NegOverflow => IntErrorKind::NegOverflow,
        _ => panic!("unexpected kind"),
    }
}

#[test]
fn usize_parse_agrees_with_std() {
    for s in SAMPLES {
        let ours = parse_usize(s);
        match s.parse::<usize>() {
            Ok(v) => assert_eq!(ours, Ok(v), "{:?}", s),
            Err(e) => {
                assert_eq!(ours, Err(kind_of(&e)), "{:?}", s);
                assert_eq!(int_error_message(kind_of(&e)), e.to_string());
            }
        }
    }
}

#[test]
fn u64_parse_agrees_with_std() {
    for s in SAMPLES {
        let ours = parse_u64(s);
        match s.parse::<u64>() {
            Ok(v) => assert_eq!(ours, Ok(v), "{:?}", s),
            Err(e) => assert_eq!(ours, Err(kind_of(&e)), "{:?}", s),
        }
    }
}

#[test]
fn i64_parse_agrees_with_std() {
    for s in SAMPLES {
        let ours = parse_i64(s);
        match s.parse::<i64>() {
            Ok(v) => assert_eq!(ours, Ok(v), "{:?}", s),
            Err(e) => {
                assert_eq!(ours, Err(kind_of(&e)), "{:?}", s);
                assert_eq!(int_error_message(kind_of(&e)), e.to_string());
            }
        }
    }
}

#[test]
fn each_int_error_kind_has_an_input() {
    assert_eq!(parse_i64(""), Err(IntErrorKind::Empty));
    assert_eq!(parse_i64("1.5"), Err(IntErrorKind::InvalidDigit));
    assert_eq!(parse_i64("9223372036854775808"), Err(IntErrorKind::PosOverflow));
    assert_eq!(parse_i64("-9223372036854775809"), Err(IntErrorKind::NegOverflow));
    assert_eq!(parse_usize("-1"), Err(IntErrorKind::InvalidDigit));
    assert_eq!(int_error_message(IntErrorKind::Empty), "cannot parse integer from empty string");
    assert_eq!(
        int_error_message(IntErrorKind::NegOverflow),
        "number too small to fit in target type"
    );
}

#[test]
fn bool_parse_agrees_with_std() {
    for s in ["true", "false", "True", "", "1", "true ", "fals"] {
        assert_eq!(parse_bool(s), s.parse::<bool>().ok(), "{:?}", s);
        if let Err(e) = s.parse::<bool>() {
            assert_eq!(bool_error_message(), e.to_string());
        }
    }
}

#[test]
fn decimal_text_agrees_with_to_string() {
    for n in [0i64, 7, -7, 10, 99, 100, -100, 1735689600000, i64::MAX, i64::MIN] {
        assert_eq!(i64_to_decimal(n), n.to_string());
    }
}

#[test]
fn decimal_text_reads_back() {
    for n in [0i64, 1, -1, 42, -1500, 1735689600000, i64::MAX, i64::MIN] {
        assert_eq!(parse_i64(&i64_to_decimal(n)), Ok(n));
    }
}

#[test]
fn blank_text_is_what_trim_empties() {
    for s in ["", " ", "\n\t \r", "\u{3000}\u{a0}", " a ", "[]", "\u{200b}", "\u{85}"] {
        assert_eq!(is_blank(s), s.trim().is_empty(), "{:?}", s);
    }
    for c in ['\u{9}', '\u{d}', '\u{e}', '\u{1680}', '\u{200a}', '\u{200b}', '\u{205f}', 'x'] {
        assert_eq!(white_space(c), c.is_whitespace(), "{:?}", c);
    }
}

#[test]
fn same_text_compares_characters() {
    assert!(same_text("linux", "linux"));
    assert!(!same_text("linux", "Linux"));
    assert!(!same_text("linux", "linu"));
    assert!(same_text("", ""));
}
