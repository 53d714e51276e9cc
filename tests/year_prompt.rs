use memoria_demo::year::{parse_year_line, parse_year_text, resolve_year};

#[test]
fn plain_year_parses() {
    assert_eq!(parse_year_text("2000"), Some(2000));
    assert_eq!(parse_year_text("0"), Some(0));
    assert_eq!(parse_year_text("007"), Some(7));
}

#[test]
fn signed_years_parse() {
    assert_eq!(parse_year_text("-5"), Some(-5));
    assert_eq!(parse_year_text("+42"), Some(42));
    assert_eq!(parse_year_text("-0"), Some(0));
}

#[test]
fn non_numbers_are_rejected() {
    assert_eq!(parse_year_text(""), None);
    assert_eq!(parse_year_text("-"), None);
    assert_eq!(parse_year_text("+"), None);
    assert_eq!(parse_year_text("abcd"), None);
    assert_eq!(parse_year_text("12a"), None);
    assert_eq!(parse_year_text("+-1"), None);
    assert_eq!(parse_year_text("1 2"), None);
    assert_eq!(parse_year_text(" 12"), None);
    assert_eq!(parse_year_text("١٢"), None);
}

#[test]
fn year_range_limits() {
    assert_eq!(parse_year_text("2147483647"), Some(i32::MAX));
    assert_eq!(parse_year_text("-2147483648"), Some(i32::MIN));
    assert_eq!(parse_year_text("2147483648"), None);
    assert_eq!(parse_year_text("-2147483649"), None);
    assert_eq!(parse_year_text("99999999999999999999999"), None);
}

#[test]
fn parse_agrees_with_std() {
    let samples = [
        "1", "12", "-12", "+12", "", "-", "+", "x", "1x", "x1", "2147483647", "2147483648",
        "-2147483648", "-2147483649", "00000000000000000000001", "--1", "++1", "1-",
    ];
    for s in samples {
        assert_eq!(parse_year_text(s), s.parse::<i32>().ok(), "text {:?}", s);
    }
}

#[test]
fn typed_line_is_trimmed() {
    assert_eq!(parse_year_line("1999\n"), Some(1999));
    assert_eq!(parse_year_line("  2000 \r\n"), Some(2000));
    assert_eq!(parse_year_line("\t-3\n"), Some(-3));
    assert_eq!(parse_year_line("abcd\n"), None);
    assert_eq!(parse_year_line("\n"), None);
    assert_eq!(parse_year_line("19 99\n"), None);
}

#[test]
fn invalid_then_valid_year() {
    let lines = vec![String::from("abcd\n"), String::from("1999\n")];
    assert_eq!(resolve_year(&lines), (Some(1999), 1));
}

#[test]
fn valid_year_on_first_try() {
    let lines = vec![String::from("2000\n"), String::from("abcd\n")];
    assert_eq!(resolve_year(&lines), (Some(2000), 0));
}

#[test]
fn first_valid_line_wins() {
    let lines = vec![
        String::from("x\n"),
        String::from("\n"),
        String::from("1 9\n"),
        String::from("1980\n"),
        String::from("1990\n"),
    ];
    assert_eq!(resolve_year(&lines), (Some(1980), 3));
}

#[test]
fn all_invalid_keeps_waiting() {
    let lines = vec![String::from("a\n"), String::from("b\n"), String::from("1.5\n")];
    assert_eq!(resolve_year(&lines), (None, 3));
    assert_eq!(resolve_year(&Vec::new()), (None, 0));
}
