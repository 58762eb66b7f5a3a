use img_2_anscii_core::color::Color;
use img_2_anscii_core::text::parse_lowercase;

const NAMED_AND_RESET: [(Color, &str); 17] = [
    (Color::Black, "black"),
    (Color::Red, "red"),
    (Color::Green, "green"),
    (Color::Yellow, "yellow"),
    (Color::Blue, "blue"),
    (Color::Magenta, "magenta"),
    (Color::Cyan, "cyan"),
    (Color::White, "white"),
    (Color::BrightBlack, "bright_black"),
    (Color::BrightRed, "bright_red"),
    (Color::BrightGreen, "bright_green"),
    (Color::BrightYellow, "bright_yellow"),
    (Color::BrightBlue, "bright_blue"),
    (Color::BrightMagenta, "bright_magenta"),
    (Color::BrightCyan, "bright_cyan"),
    (Color::BrightWhite, "bright_white"),
    (Color::Reset, "reset"),
];

fn invalid(s: &str) -> Result<Color, String> {
    Err(format!("'{}' is not a valid color", s))
}

#[test]
fn names_are_written_in_lowercase_with_underscores() {
    for (c, name) in NAMED_AND_RESET {
        assert_eq!(c.to_string(), name);
    }
}

#[test]
fn named_colors_round_trip() {
    for (c, _) in NAMED_AND_RESET {
        assert_eq!(Color::from_str(&c.to_string()), Ok(c));
    }
}

#[test]
fn palette_indices_round_trip_through_decimal() {
    for n in 0..=255u8 {
        let c = Color::Color256(n);
        assert_eq!(c.to_string(), format!("{}", n));
        assert_eq!(Color::from_str(&c.to_string()), Ok(c));
    }
}

#[test]
fn true_colors_round_trip_through_hex() {
    let steps: [u8; 12] = [0, 1, 2, 9, 10, 15, 16, 17, 127, 128, 254, 255];
    for r in steps {
        for g in steps {
            for b in steps {
                let c = Color::TrueColor(r, g, b);
                assert_eq!(Color::from_str(&c.to_string()), Ok(c));
            }
        }
    }
    for v in 0..=255u8 {
        for c in [Color::TrueColor(v, 0, 0), Color::TrueColor(0, v, 0), Color::TrueColor(0, 0, v)] {
            assert_eq!(Color::from_str(&c.to_string()), Ok(c));
        }
    }
}

#[test]
fn hex_is_written_without_leading_zeros() {
    assert_eq!(Color::TrueColor(255, 128, 0).to_string(), "#ff8000");
    assert_eq!(Color::TrueColor(0, 0, 0).to_string(), "#0");
    assert_eq!(Color::TrueColor(0, 0, 10).to_string(), "#a");
    assert_eq!(Color::TrueColor(0, 1, 2).to_string(), "#102");
    assert_eq!(Color::TrueColor(1, 0, 0).to_string(), "#10000");
    assert_eq!(Color::TrueColor(171, 205, 239).to_string(), "#abcdef");
}

#[test]
fn documented_cases() {
    assert_eq!(Color::from_str("Bright Red"), Ok(Color::BrightRed));
    assert_eq!(Color::from_str("255"), Ok(Color::Color256(255)));
    assert_eq!(Color::from_str("#ff8000"), Ok(Color::TrueColor(255, 128, 0)));
}

#[test]
fn names_are_read_in_any_case() {
    assert_eq!(Color::from_str("RED"), Ok(Color::Red));
    assert_eq!(Color::from_str("rEd"), Ok(Color::Red));
    assert_eq!(Color::from_str("Bright_Blue"), Ok(Color::BrightBlue));
    assert_eq!(Color::from_str("BRIGHT WHITE"), Ok(Color::BrightWhite));
    assert_eq!(Color::from_str("Reset"), Ok(Color::Reset));
    assert_eq!(Color::from_str("#FF8000"), Ok(Color::TrueColor(255, 128, 0)));
    assert_eq!(Color::from_str("#AbCdEf"), Ok(Color::TrueColor(0xab, 0xcd, 0xef)));
}

#[test]
fn lowercase_follows_unicode() {
    // U+212A, the Kelvin sign, has the small letter k as its lowercase form.
    assert_eq!(Color::from_str("blac\u{212A}"), Ok(Color::Black));
    assert_eq!(Color::from_str("bl\u{e4}ck"), invalid("bl\u{e4}ck"));
    assert_eq!(Color::from_str("\u{ff12}\u{ff15}"), invalid("\u{ff12}\u{ff15}"));
}

#[test]
fn bright_names_take_underscore_or_space() {
    let pairs = [
        ("bright_black", "bright black", Color::BrightBlack),
        ("bright_red", "bright red", Color::BrightRed),
        ("bright_green", "bright green", Color::BrightGreen),
        ("bright_yellow", "bright yellow", Color::BrightYellow),
        ("bright_blue", "bright blue", Color::BrightBlue),
        ("bright_magenta", "bright magenta", Color::BrightMagenta),
        ("bright_cyan", "bright cyan", Color::BrightCyan),
        ("bright_white", "bright white", Color::BrightWhite),
    ];
    for (a, b, c) in pairs {
        assert_eq!(Color::from_str(a), Ok(c));
        assert_eq!(Color::from_str(b), Ok(c));
    }
    assert_eq!(Color::from_str("bright-red"), invalid("bright-red"));
    assert_eq!(Color::from_str("brightred"), invalid("brightred"));
    assert_eq!(Color::from_str("bright  red"), invalid("bright  red"));
}

#[test]
fn aliases() {
    assert_eq!(Color::from_str("purple"), Ok(Color::Magenta));
    assert_eq!(Color::from_str("gray"), Ok(Color::White));
    assert_eq!(Color::from_str("grey"), Ok(Color::White));
    assert_eq!(Color::from_str("Purple"), Ok(Color::Magenta));
}

#[test]
fn a_small_number_is_a_palette_index_never_a_hex_triplet() {
    assert_eq!(Color::from_str("0"), Ok(Color::Color256(0)));
    assert_eq!(Color::from_str("10"), Ok(Color::Color256(10)));
    assert_eq!(Color::from_str("007"), Ok(Color::Color256(7)));
    assert_eq!(Color::from_str("+5"), Ok(Color::Color256(5)));
    assert_eq!(Color::from_str("0000000000000000000000255"), Ok(Color::Color256(255)));
}

#[test]
fn a_number_above_255_is_read_as_hex() {
    assert_eq!(Color::from_str("256"), Ok(Color::TrueColor(0, 0x02, 0x56)));
    assert_eq!(Color::from_str("1000"), Ok(Color::TrueColor(0, 0x10, 0x00)));
    assert_eq!(Color::from_str("ff"), Ok(Color::TrueColor(0, 0, 255)));
    assert_eq!(Color::from_str("#10"), Ok(Color::TrueColor(0, 0, 16)));
    assert_eq!(Color::from_str("+ff"), Ok(Color::TrueColor(0, 0, 255)));
    assert_eq!(Color::from_str("#+ff"), Ok(Color::TrueColor(0, 0, 255)));
    assert_eq!(Color::from_str("#0"), Ok(Color::TrueColor(0, 0, 0)));
}

#[test]
fn hex_keeps_the_low_24_bits_of_32() {
    assert_eq!(Color::from_str("#12345678"), Ok(Color::TrueColor(0x34, 0x56, 0x78)));
    assert_eq!(Color::from_str("ffffffff"), Ok(Color::TrueColor(255, 255, 255)));
    assert_eq!(Color::from_str("#ff000000"), Ok(Color::TrueColor(0, 0, 0)));
    assert_eq!(Color::from_str("#000000000000abcdef"), Ok(Color::TrueColor(0xab, 0xcd, 0xef)));
    assert_eq!(Color::from_str("#100000000"), invalid("#100000000"));
    assert_eq!(Color::from_str("fffffffff"), invalid("fffffffff"));
}

#[test]
fn what_is_no_color_is_refused_with_the_text_quoted() {
    assert_eq!(Color::from_str("nope"), Err("'nope' is not a valid color".to_string()));
    assert_eq!(Color::from_str("NoPe"), Err("'NoPe' is not a valid color".to_string()));
    for s in [
        "", " ", "#", "+", "#+", "##ff", "#-1", "-1", "0x10", "ff ", " ff", "f_f", "12.5", "1g3",
        "#ggg", "red ", " red", "re d", "++1", "+#ff", "darkblue", "'", "\n",
    ] {
        assert_eq!(Color::from_str(s), invalid(s));
    }
}

#[test]
fn from_str_is_also_the_std_trait() {
    assert_eq!("cyan".parse::<Color>(), Ok(Color::Cyan));
    assert_eq!("Bright Red".parse::<Color>(), Ok(Color::BrightRed));
    assert_eq!("42".parse::<Color>(), Ok(Color::Color256(42)));
    assert_eq!("what".parse::<Color>(), invalid("what"));
}

#[test]
fn lowercase_text_is_read_as_it_stands() {
    assert_eq!(parse_lowercase("red"), Some(Color::Red));
    assert_eq!(parse_lowercase("bright red"), Some(Color::BrightRed));
    assert_eq!(parse_lowercase("200"), Some(Color::Color256(200)));
    assert_eq!(parse_lowercase("#ff8000"), Some(Color::TrueColor(255, 128, 0)));
    assert_eq!(parse_lowercase("RED"), None);
    assert_eq!(parse_lowercase("Red"), None);
    // Digits count in either case, as they do for the integer parsers of std.
    assert_eq!(parse_lowercase("#FF"), Some(Color::TrueColor(0, 0, 255)));
    assert_eq!(parse_lowercase("r\u{e9}d"), None);
    assert_eq!(parse_lowercase(""), None);
}

#[test]
fn case_alone_makes_no_difference() {
    let texts = ["bright_magenta", "grey", "reset", "#abcdef", "+ab", "250", "no colour", ""];
    for t in texts {
        let upper = t.to_uppercase();
        let mixed: String = t
            .chars()
            .enumerate()
            .map(|(i, c)| if i % 2 == 0 { c.to_ascii_uppercase() } else { c })
            .collect();
        assert_eq!(Color::from_str(&upper).ok(), Color::from_str(t).ok());
        assert_eq!(Color::from_str(&mixed).ok(), Color::from_str(t).ok());
    }
}

#[test]
fn the_quoted_text_keeps_its_case() {
    assert_eq!(Color::from_str("Dark Blue"), Err("'Dark Blue' is not a valid color".to_string()));
    assert_eq!(Color::from_str(""), Err("'' is not a valid color".to_string()));
}
