//! Digit scraping, newline stripping, decoding and tokenization.

use spectrbar::colorizer::Colorizer;
use spectrbar::data::{parse_numeric, Data, WidgetError};
use spectrbar::retrieve::{command_parts, tokenize, DataRetriever};
use spectrbar::text::{i32_to_string, strip_trailing_newline};
use spectrbar::widget::Widget;

#[test]
fn parse_scrapes_digits_in_order() {
    assert_eq!(parse_numeric("hello 32"), Ok(32));
    assert_eq!(parse_numeric("-4a2"), Ok(42));
    assert_eq!(parse_numeric("1 2 3"), Ok(123));
    assert_eq!(parse_numeric("007"), Ok(7));
    assert_eq!(parse_numeric("2147483647"), Ok(2147483647));
}

#[test]
fn parse_without_digits_fails() {
    assert_eq!(parse_numeric(""), Err(WidgetError::NoDigits));
    assert_eq!(parse_numeric("no digits"), Err(WidgetError::NoDigits));
}

#[test]
fn parse_beyond_range_fails() {
    assert_eq!(parse_numeric("2147483648"), Err(WidgetError::OutOfRange));
    assert_eq!(parse_numeric("99999999999"), Err(WidgetError::OutOfRange));
}

#[test]
fn strip_removes_exactly_one_trailing_newline() {
    assert_eq!(strip_trailing_newline(String::from("a\n")), String::from("a"));
    assert_eq!(strip_trailing_newline(String::from("a\n\n")), String::from("a\n"));
    assert_eq!(strip_trailing_newline(String::from("a\nb")), String::from("a\nb"));
    assert_eq!(strip_trailing_newline(String::from("abc")), String::from("abc"));
    assert_eq!(strip_trailing_newline(String::new()), String::new());
    assert_eq!(strip_trailing_newline(String::from("\n")), String::new());
}

#[test]
fn invalid_bytes_decode_lossily() {
    let widget = Widget::new(
        "test",
        DataRetriever::File(String::from("/tmp/data")),
        Colorizer::Constant(1),
        false,
    );
    let sample = Some(vec![0x61, 0xFF, 0x62]);
    assert_eq!(widget.update(&sample), Ok(Data::Text(String::from("a\u{FFFD}b"))));
    let numeric = Widget::new(
        "test",
        DataRetriever::File(String::from("/tmp/data")),
        Colorizer::Constant(1),
        true,
    );
    let sample2 = Some(vec![0xFF, 0x33, 0x32, 0x0A]);
    assert_eq!(numeric.update(&sample2), Ok(Data::Number(32)));
}

#[test]
fn tokenize_splits_on_whitespace_runs() {
    assert_eq!(tokenize("echo hello world"), vec!["echo", "hello", "world"]);
    assert_eq!(tokenize("  a \t b  "), vec!["a", "b"]);
    assert_eq!(tokenize("one"), vec!["one"]);
    assert_eq!(tokenize(""), Vec::<String>::new());
    assert_eq!(tokenize(" \t \n"), Vec::<String>::new());
}

#[test]
fn command_parts_splits_program_and_arguments() {
    let (prog, args) = command_parts("echo hello world").unwrap();
    assert_eq!(prog, "echo");
    assert_eq!(args, vec!["hello", "world"]);
    let (prog2, args2) = command_parts("hello").unwrap();
    assert_eq!(prog2, "hello");
    assert_eq!(args2, Vec::<String>::new());
    assert!(command_parts("").is_none());
    assert!(command_parts("   ").is_none());
}

#[test]
fn numbers_render_in_decimal() {
    assert_eq!(i32_to_string(0), "0");
    assert_eq!(i32_to_string(32), "32");
    assert_eq!(i32_to_string(-5), "-5");
    assert_eq!(i32_to_string(2147483647), "2147483647");
    assert_eq!(i32_to_string(-2147483648), "-2147483648");
    assert_eq!(Data::Number(-40).display_string(), "-40");
}
