use spark_signals::text::{float, lines, parse_u64, u64_text};

#[test]
fn numbers_read_back() {
    for n in [0, 7, 10, 1_024, u64::MAX] {
        assert_eq!(u64_text(n), n.to_string());
        assert_eq!(parse_u64(&u64_text(n)), Some(n));
    }
    assert_eq!(parse_u64("18446744073709551616"), None);
    assert_eq!(parse_u64(""), None);
    assert_eq!(parse_u64("+7"), Some(7));
    assert_eq!(parse_u64("-1"), None);
}

#[test]
fn floats_are_recognised_as_std_reads_them() {
    for text in [
        "1", "1.", ".5", "-1.5e3", "+2E-7", "inf", "-Infinity", "NaN", "1e400", "00.10", "5.e2",
        "", ".", "e5", "1e", "0x10", "1_0", " 1", "1 ", "+", "--1", "nanx", "1.2.3", "1e5.0",
    ] {
        assert_eq!(float(text), text.parse::<f64>().is_ok(), "{text}");
    }
}

#[test]
fn lines_end_as_std_ends_them() {
    for text in ["", "\n", "a", "a\n", "a\r\nb", "a\rb\n\n", "\r\n\r", "x\n\ny"] {
        let expected: Vec<&str> = text.lines().collect();
        assert_eq!(lines(text), expected);
    }
}
