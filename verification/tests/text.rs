use opentracker_exporter::text::{
    chars_of, digit_value, parse_count, parse_signed, push_decimal, push_signed_decimal, same_text,
};

#[test]
fn counts_are_read_as_decimal_numbers() {
    assert_eq!(parse_count("0"), 0);
    assert_eq!(parse_count("7"), 7);
    assert_eq!(parse_count("12345"), 12345);
    assert_eq!(parse_count("007"), 7);
    assert_eq!(parse_count("+5"), 5);
    assert_eq!(parse_count("+0"), 0);
    assert_eq!(parse_count(&usize::MAX.to_string()), usize::MAX);
    assert_eq!(parse_count(&format!("000000000000000000000000000{}", usize::MAX)), usize::MAX);
}

#[test]
fn what_is_no_count_reads_as_zero() {
    for text in [
        "", "+", "-", "-5", "++5", "+-5", " 7", "7 ", "7\n", "1.5", "1e3", "0x10", "abc", "12a", "a12",
        "१२", "５", "1_000", "∞",
    ] {
        assert_eq!(parse_count(text), 0, "{:?}", text);
        assert!(text.parse::<usize>().is_err(), "{:?}", text);
    }
}

#[test]
fn a_count_too_large_reads_as_zero() {
    let max = usize::MAX.to_string();
    let mut above = max.clone();
    let last = above.pop().unwrap();
    assert_eq!(last, '5');
    above.push('6');
    assert_eq!(parse_count(&above), 0);
    assert_eq!(parse_count(&format!("{}0", max)), 0);
    assert_eq!(parse_count("99999999999999999999999999999999999999999"), 0);
    assert_eq!(parse_count("+99999999999999999999999999999999999999999"), 0);
    assert_eq!(parse_count("99999999999999999999999999999999999999999x"), 0);
}

#[test]
fn counts_agree_with_the_standard_reading() {
    let mut texts: Vec<String> = Vec::new();
    for n in [0usize, 1, 9, 10, 99, 100, 65535, 4294967295, usize::MAX - 1, usize::MAX] {
        texts.push(n.to_string());
        texts.push(format!("+{}", n));
        texts.push(format!("0{}", n));
        texts.push(format!("{}0", n));
        texts.push(format!("-{}", n));
        texts.push(format!("{} ", n));
    }
    for text in texts {
        assert_eq!(parse_count(&text), text.parse::<usize>().unwrap_or(0), "{:?}", text);
    }
}

#[test]
fn digits_have_their_values() {
    for (i, c) in "0123456789".chars().enumerate() {
        assert_eq!(digit_value(c), Some(i as u8));
    }
    for c in ['/', ':', 'a', ' ', '+', '-', '٣', '\0'] {
        assert_eq!(digit_value(c), None);
    }
}

#[test]
fn numbers_are_appended_in_decimal() {
    let mut out = String::from("n=");
    push_decimal(&mut out, 0);
    out.push(',');
    push_decimal(&mut out, 1203);
    out.push(',');
    push_signed_decimal(&mut out, -1203);
    out.push(',');
    push_signed_decimal(&mut out, 7);
    assert_eq!(out, "n=0,1203,-1203,7");
}

#[test]
fn texts_are_compared_by_their_characters() {
    assert!(same_text("", ""));
    assert!(same_text("count", "count"));
    assert!(!same_text("count", "Count"));
    assert!(!same_text("count", "count "));
    assert!(!same_text("count", "coun"));
    assert!(same_text("zähler", "zähler"));
    assert!(!same_text("zähler", "zahler"));
}

#[test]
fn characters_of_a_text() {
    assert_eq!(chars_of(""), Vec::<char>::new());
    assert_eq!(chars_of("a\r\nß€😀"), vec!['a', '\r', '\n', 'ß', '€', '😀']);
}

#[test]
fn signed_numbers_are_read_with_their_sign() {
    assert_eq!(parse_signed("0"), 0);
    assert_eq!(parse_signed("5"), 5);
    assert_eq!(parse_signed("+5"), 5);
    assert_eq!(parse_signed("-5"), -5);
    assert_eq!(parse_signed("-0"), 0);
    assert_eq!(parse_signed("-007"), -7);
    assert_eq!(parse_signed(&isize::MAX.to_string()), isize::MAX);
    assert_eq!(parse_signed(&isize::MIN.to_string()), isize::MIN);
    assert_eq!(parse_signed(&format!("+{}", isize::MAX)), isize::MAX);
}

#[test]
fn what_is_no_signed_number_reads_as_zero() {
    let above = (isize::MAX as u128 + 1).to_string();
    let below = format!("-{}", isize::MAX as u128 + 2);
    for text in [
        "", "+", "-", "--5", "+-5", "-+5", "5-", " 5", "-5 ", "- 5", "1.5", "abc", "-a", "−5",
        above.as_str(), below.as_str(), "99999999999999999999999999999999999999999",
        "-99999999999999999999999999999999999999999",
    ] {
        assert_eq!(parse_signed(text), 0, "{:?}", text);
        assert!(text.parse::<isize>().is_err(), "{:?}", text);
    }
}

#[test]
fn signed_numbers_agree_with_the_standard_reading() {
    let mut texts: Vec<String> = Vec::new();
    for n in [0isize, 1, -1, 9, -10, 99, 65535, -65536, isize::MAX - 1, isize::MAX, isize::MIN + 1, isize::MIN] {
        texts.push(n.to_string());
        texts.push(format!("+{}", n));
        texts.push(format!("-{}", n));
        texts.push(format!("0{}", n));
        texts.push(format!("{}0", n));
        texts.push(format!("{} ", n));
    }
    for text in texts {
        assert_eq!(parse_signed(&text), text.parse::<isize>().unwrap_or(0), "{:?}", text);
    }
}

#[test]
fn a_signed_number_reads_back_from_its_writing() {
    for n in [0isize, 7, -7, 1203, -1203, isize::MAX, isize::MIN] {
        let mut out = String::new();
        push_signed_decimal(&mut out, n);
        assert_eq!(out, n.to_string());
        assert_eq!(parse_signed(&out), n);
    }
}
