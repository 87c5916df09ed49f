use rosu_parser::beatmap::number::{check_decimal, parse_isize, parse_u8, parse_usize, Decimal};

#[test]
fn usize_plain_digits() {
    assert_eq!(parse_usize(b"0"), Some(0));
    assert_eq!(parse_usize(b"14"), Some(14));
    assert_eq!(parse_usize(b"007"), Some(7));
    assert_eq!(parse_usize(b"+5"), Some(5));
}

#[test]
fn usize_refuses_what_is_no_number() {
    assert_eq!(parse_usize(b""), None);
    assert_eq!(parse_usize(b"+"), None);
    assert_eq!(parse_usize(b"-5"), None);
    assert_eq!(parse_usize(b"++5"), None);
    assert_eq!(parse_usize(b" 5"), None);
    assert_eq!(parse_usize(b"5 "), None);
    assert_eq!(parse_usize(b"5a"), None);
    assert_eq!(parse_usize(b"1.0"), None);
}

#[test]
fn usize_at_its_limit() {
    let max = usize::MAX.to_string();
    assert_eq!(parse_usize(max.as_bytes()), Some(usize::MAX));
    let over = format!("{}0", max);
    assert_eq!(parse_usize(over.as_bytes()), None);
    let next = (usize::MAX as u128 + 1).to_string();
    assert_eq!(parse_usize(next.as_bytes()), None);
    let long_zero = format!("{}1", "0".repeat(40));
    assert_eq!(parse_usize(long_zero.as_bytes()), Some(1));
}

#[test]
fn usize_agrees_with_the_standard_library() {
    let texts = [
        "", "0", "1", "+1", "-1", "+", "-", "12a", "a12", "99999999999999999999999", "1_000",
        "0x10", "\u{661}",
    ];
    for text in texts {
        assert_eq!(parse_usize(text.as_bytes()), text.parse::<usize>().ok(), "{:?}", text);
        assert_eq!(parse_isize(text.as_bytes()), text.parse::<isize>().ok(), "{:?}", text);
        assert_eq!(parse_u8(text.as_bytes()), text.parse::<u8>().ok(), "{:?}", text);
    }
}

#[test]
fn isize_with_signs() {
    assert_eq!(parse_isize(b"0"), Some(0));
    assert_eq!(parse_isize(b"-0"), Some(0));
    assert_eq!(parse_isize(b"+12"), Some(12));
    assert_eq!(parse_isize(b"-12"), Some(-12));
    assert_eq!(parse_isize(b"--12"), None);
    assert_eq!(parse_isize(b"-+12"), None);
    assert_eq!(parse_isize(b"-"), None);
    assert_eq!(parse_isize(b""), None);
}

#[test]
fn isize_at_its_limits() {
    let max = isize::MAX.to_string();
    let min = isize::MIN.to_string();
    assert_eq!(parse_isize(max.as_bytes()), Some(isize::MAX));
    assert_eq!(parse_isize(min.as_bytes()), Some(isize::MIN));
    let over = (isize::MAX as i128 + 1).to_string();
    let under = (isize::MIN as i128 - 1).to_string();
    assert_eq!(parse_isize(over.as_bytes()), None);
    assert_eq!(parse_isize(under.as_bytes()), None);
}

#[test]
fn u8_at_its_limit() {
    assert_eq!(parse_u8(b"255"), Some(255));
    assert_eq!(parse_u8(b"256"), None);
    assert_eq!(parse_u8(b"+0"), Some(0));
    assert_eq!(parse_u8(b"1000"), None);
}

#[test]
fn decimal_accepts_numbers() {
    for text in [
        "0", "1", "-1", "+1", "1.5", "-1.5", "1.", ".5", "-.5", "+.5", "0.7", "300.5", "1e5", "1E5",
        "1e+5", "1e-5", "1.e5", ".5e5", "1.5E-10", "inf", "-inf", "+inf", "INF", "Infinity",
        "infinity", "-INFINITY", "nan", "NaN", "-nan", "0000.0000",
        "123456789012345678901234567890.123456789012345678901234567890",
    ] {
        assert!(check_decimal(text.as_bytes()), "{:?}", text);
        let decimal = Decimal::parse(text.as_bytes()).unwrap();
        assert_eq!(decimal.as_bytes(), text.as_bytes());
        assert_eq!(decimal.text(), text);
        assert!(decimal.text().parse::<f32>().is_ok());
    }
}

#[test]
fn decimal_refuses_what_is_no_number() {
    for text in [
        "", "+", "-", ".", "+.", "e5", ".e5", "1e", "1e+", "1e-", "1e5.0", "1.5.5", "1,5", " 1",
        "1 ",
        "--1", "+-1", "in", "infinit", "infinityy", "nano", "na", "0x10", "1_0", "1f32", "fast",
        "1e5e5", "1..", "i", "n",
    ] {
        assert!(!check_decimal(text.as_bytes()), "{:?}", text);
        assert!(Decimal::parse(text.as_bytes()).is_none(), "{:?}", text);
    }
}

#[test]
fn decimal_agrees_with_the_standard_library() {
    let pieces =
        ["", "+", "-", "1", "12", ".", "e", "E", "e+", "e-", "inf", "nan", "infinity", "x", " "];
    for a in pieces {
        for b in pieces {
            for c in pieces {
                let text = format!("{}{}{}", a, b, c);
                assert_eq!(
                    check_decimal(text.as_bytes()),
                    text.parse::<f32>().is_ok(),
                    "{:?}",
                    text
                );
                assert_eq!(
                    check_decimal(text.as_bytes()),
                    text.parse::<f64>().is_ok(),
                    "{:?}",
                    text
                );
            }
        }
    }
}

#[test]
fn decimal_default_and_clone() {
    let zero = Decimal::default();
    assert_eq!(zero.text(), "0");
    assert_eq!(zero.text().parse::<f32>().unwrap(), 0.0);
    let half = Decimal::parse(b"0.5").unwrap();
    assert_eq!(half.clone(), half);
    assert_eq!(half.text().parse::<f64>().unwrap(), 0.5);
}
