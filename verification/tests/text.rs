use csv_chart::text::{
    after_first_char, decimal_string, eq_ignore_ascii_case, find_char, parse_bool, parse_i64,
    parse_u64, parse_u8, split_borrowed, split_once_char, split_owned, starts_with, str_eq,
    trim_line_end, bool_string,
};

const SAMPLES: [&str; 24] = [
    "", "+", "-", "0", "7", "+7", "-7", "007", "255", "256", "-0", "+-1", "1_000", " 5", "5 ",
    "18446744073709551615", "18446744073709551616", "9223372036854775807",
    "9223372036854775808", "-9223372036854775808", "-9223372036854775809", "12a", "٣", "true",
];

#[test]
fn parse_u64_agrees_with_std() {
    for s in SAMPLES {
        assert_eq!(parse_u64(s), s.parse::<u64>().ok(), "input {:?}", s);
    }
}

#[test]
fn parse_u8_agrees_with_std() {
    for s in SAMPLES {
        assert_eq!(parse_u8(s), s.parse::<u8>().ok(), "input {:?}", s);
    }
}

#[test]
fn parse_i64_agrees_with_std() {
    for s in SAMPLES {
        assert_eq!(parse_i64(s), s.parse::<i64>().ok(), "input {:?}", s);
    }
}

#[test]
fn parse_i64_bounds() {
    assert_eq!(parse_i64("-9223372036854775808"), Some(i64::MIN));
    assert_eq!(parse_i64("9223372036854775807"), Some(i64::MAX));
    assert_eq!(parse_i64("9223372036854775808"), None);
    assert_eq!(parse_i64("-"), None);
}

#[test]
fn parse_bool_agrees_with_std() {
    for s in ["true", "false", "True", "", "tru", "truee", " true"] {
        assert_eq!(parse_bool(s), s.parse::<bool>().ok(), "input {:?}", s);
    }
}

#[test]
fn decimal_string_agrees_with_to_string() {
    for n in [0u64, 9, 10, 99, 100, 1234567890, u64::MAX] {
        assert_eq!(decimal_string(n), n.to_string());
    }
}

#[test]
fn bool_string_agrees_with_to_string() {
    assert_eq!(bool_string(true), "true");
    assert_eq!(bool_string(false), "false");
}

#[test]
fn split_agrees_with_std() {
    for s in ["", ",", "a", "a,b", ",a,,b,", "é,ü,ß", "no separator"] {
        let expected: Vec<&str> = s.split(',').collect();
        assert_eq!(split_borrowed(s, ','), expected);
        let owned: Vec<String> = expected.iter().map(|x| x.to_string()).collect();
        assert_eq!(split_owned(s, ','), owned);
    }
}

#[test]
fn split_join_law_on_examples() {
    for s in ["", ",,", "a,b,c", "x"] {
        let pieces = split_owned(s, ',');
        assert_eq!(pieces.join(","), s);
        assert!(pieces.iter().all(|p| !p.contains(',')));
    }
}

#[test]
fn split_once_agrees_with_std() {
    for s in ["a=b", "a=b=c", "=", "ab", "", "é=ü"] {
        assert_eq!(split_once_char(s, '='), s.split_once('='));
        assert_eq!(after_first_char(s, '='), s.split_once('=').unwrap_or(("", "")).1);
    }
}

#[test]
fn find_char_counts_characters() {
    assert_eq!(find_char("ab\ncd", '\n'), 2);
    assert_eq!(find_char("éé\n", '\n'), 2);
    assert_eq!(find_char("abc", '\n'), 3);
}

#[test]
fn prefix_and_equality() {
    assert!(starts_with("tension=1", "tension"));
    assert!(!starts_with("tens", "tension"));
    assert!(starts_with("", ""));
    assert!(str_eq("y", "y"));
    assert!(!str_eq("yes", "y"));
    assert!(!str_eq("", "y"));
}

#[test]
fn eq_ignore_ascii_case_agrees_with_std() {
    let pairs = [("BAR", "bar"), ("Polar_Area", "polar_area"), ("bars", "bar"), ("É", "é"), ("", "")];
    for (a, b) in pairs {
        assert_eq!(eq_ignore_ascii_case(a, b), a.eq_ignore_ascii_case(b));
    }
}

#[test]
fn trim_line_end_takes_off_trailing_controls() {
    assert_eq!(trim_line_end("abc\r\n"), "abc");
    assert_eq!(trim_line_end(" x \t\n"), " x ");
    assert_eq!(trim_line_end("a\u{1f}"), "a\u{1f}");
    assert_eq!(trim_line_end("\n\n"), "");
    assert_eq!(trim_line_end("a\nb\n"), "a\nb");
}

#[test]
fn trim_is_idempotent_on_examples() {
    for s in ["abc\r\n", "\n", "x\u{1}y\u{2}", ""] {
        let once = trim_line_end(s);
        assert_eq!(trim_line_end(once), once);
    }
}
