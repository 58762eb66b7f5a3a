use img_2_anscii_core::numeral::{parse_unsigned, push_numeral};

fn written(n: u32, base: u32) -> String {
    let mut s = String::new();
    push_numeral(&mut s, n, base);
    s
}

#[test]
fn decimal_numerals() {
    assert_eq!(written(0, 10), "0");
    assert_eq!(written(9, 10), "9");
    assert_eq!(written(10, 10), "10");
    assert_eq!(written(107, 10), "107");
    assert_eq!(written(255, 10), "255");
    assert_eq!(written(u32::MAX, 10), "4294967295");
    for n in 0..2000u32 {
        assert_eq!(written(n, 10), format!("{}", n));
    }
}

#[test]
fn hexadecimal_numerals_are_lowercase() {
    assert_eq!(written(0, 16), "0");
    assert_eq!(written(10, 16), "a");
    assert_eq!(written(255, 16), "ff");
    assert_eq!(written(0xff8000, 16), "ff8000");
    assert_eq!(written(u32::MAX, 16), "ffffffff");
    for n in (0..0x1000000u32).step_by(4099) {
        assert_eq!(written(n, 16), format!("{:x}", n));
    }
}

#[test]
fn other_bases() {
    assert_eq!(written(5, 2), "101");
    assert_eq!(written(8, 8), "10");
    assert_eq!(written(0, 2), "0");
    assert_eq!(written(35, 36), "z");
    assert_eq!(written(36 * 36 - 1, 36), "zz");
    assert_eq!(written(16 * 36 + 20, 36), "gk");
}

#[test]
fn numerals_are_appended() {
    let mut s = String::from("n=");
    push_numeral(&mut s, 42, 10);
    assert_eq!(s, "n=42");
}

#[test]
fn parsing_agrees_with_std_on_decimal_bytes() {
    let texts = [
        "0", "7", "007", "255", "256", "+255", "+256", "+", "", "-1", "1 ", " 1", "12a", "a", "+-1",
        "++1", "99999999999999999999", "000000000000000000000000001", "2_5", "1.0",
    ];
    for t in texts {
        let expected = t.parse::<u8>().ok().map(|v| v as u32);
        assert_eq!(parse_unsigned(t, 10, 255), expected);
    }
}

#[test]
fn parsing_agrees_with_std_on_hex_words() {
    let texts = [
        "0", "ff", "FF", "fF", "ff8000", "ffffffff", "100000000", "+ff", "+", "", "g", "fg", "0x10",
        "-ff", "00000000000000000000ff", "ffffffffffffffff", " ff", "z",
    ];
    for t in texts {
        let expected = u32::from_str_radix(t, 16).ok();
        assert_eq!(parse_unsigned(t, 16, u32::MAX), expected);
    }
}

#[test]
fn text_outside_ascii_is_no_number() {
    assert_eq!(parse_unsigned("\u{ff11}", 10, 255), None);
    assert_eq!(parse_unsigned("1\u{e9}", 16, u32::MAX), None);
    assert_eq!(parse_unsigned("\u{e9}1", 16, u32::MAX), None);
    assert_eq!(parse_unsigned("+\u{662}", 10, 255), None);
}

#[test]
fn parsing_stops_at_the_limit() {
    assert_eq!(parse_unsigned("100", 10, 100), Some(100));
    assert_eq!(parse_unsigned("101", 10, 100), None);
    assert_eq!(parse_unsigned("4294967295", 10, u32::MAX), Some(u32::MAX));
    assert_eq!(parse_unsigned("4294967296", 10, u32::MAX), None);
    assert_eq!(parse_unsigned("zz", 36, u32::MAX), Some(35 * 36 + 35));
}

#[test]
fn numerals_read_back() {
    for n in (0..=u32::MAX).step_by(65_521 * 257) {
        assert_eq!(parse_unsigned(&written(n, 10), 10, u32::MAX), Some(n));
        assert_eq!(parse_unsigned(&written(n, 16), 16, u32::MAX), Some(n));
    }
}
