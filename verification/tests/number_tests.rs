use lox_scanner::chars::{decimal, same_text, sub_chars, to_chars, to_text};
use lox_scanner::number::{denotes_number, is_number};

#[test]
fn denotes_number_agrees_with_float_parsing() {
    let texts = [
        "", "0", "1", "42", "007", "1.", ".5", ".", "..", "1.5", "1.2.3", "1..2", "+", "-", "+1",
        "-1.5", "+-1", "--1", "1e", "1e+", "1e-", "1e5", "1E5", "1e+5", "1e-5", "1.e5", ".5e5",
        ".e5", "e5", "1e5.0", "1e5e5", "1ee5", "inf", "INF", "Inf", "iNf", "+inf", "-inf",
        "infinity", "INFINITY", "-Infinity", "infinit", "infinityy", "in", "nan", "NaN", "NAN",
        "+nan", "-nan", "nanx", "na", " 1", "1 ", "1 2", "0x10", "1_0", "1f", "1.0f64", "abc",
        "true", "١", "1١", "12345678901234567890123456789", "0.000000000000000000001", "1e400",
        "+.5", "-.5e-3", "+.", "-e5", "1.5E+10", "1.5E+", "é",
    ];
    for text in texts {
        assert_eq!(denotes_number(text), text.parse::<f64>().is_ok(), "{:?}", text);
    }
}

#[test]
fn is_number_on_characters() {
    assert!(is_number(&vec!['1', '.', '5']));
    assert!(is_number(&vec!['-', '.', '5', 'e', '+', '1', '0']));
    assert!(!is_number(&vec!['1', '.', '2', '.', '3']));
    assert!(!is_number(&vec![]));
    assert!(!is_number(&vec!['-']));
}

#[test]
fn decimal_writes_numbers_without_leading_zeros() {
    assert_eq!(decimal(0), "0");
    assert_eq!(decimal(7), "7");
    assert_eq!(decimal(10), "10");
    assert_eq!(decimal(65), "65");
    assert_eq!(decimal(1203), "1203");
    assert_eq!(decimal(usize::MAX), usize::MAX.to_string());
}

#[test]
fn same_text_compares_character_by_character() {
    assert!(same_text("", ""));
    assert!(same_text("nil", "nil"));
    assert!(!same_text("nil", "nill"));
    assert!(!same_text("nil", "nik"));
    assert!(same_text("héllo", "héllo"));
    assert!(!same_text("héllo", "hello"));
}

#[test]
fn characters_and_text_convert_both_ways() {
    let chars = to_chars("a\"é\n1");
    assert_eq!(chars, vec!['a', '"', 'é', '\n', '1']);
    assert_eq!(to_text(&chars, 0, 5), "a\"é\n1");
    assert_eq!(to_text(&chars, 1, 3), "\"é");
    assert_eq!(to_text(&chars, 2, 2), "");
    assert_eq!(sub_chars(&chars, 3, 5), vec!['\n', '1']);
    assert_eq!(to_chars(""), Vec::<char>::new());
}
