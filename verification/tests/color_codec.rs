use img_2_anscii_core::color::{Color, Layer};

const NAMED: [Color; 16] = [
    Color::Black,
    Color::Red,
    Color::Green,
    Color::Yellow,
    Color::Blue,
    Color::Magenta,
    Color::Cyan,
    Color::White,
    Color::BrightBlack,
    Color::BrightRed,
    Color::BrightGreen,
    Color::BrightYellow,
    Color::BrightBlue,
    Color::BrightMagenta,
    Color::BrightCyan,
    Color::BrightWhite,
];

fn fg(c: Color) -> String {
    let mut s = String::new();
    c.fg_fmt(&mut s).unwrap();
    s
}

fn bg(c: Color) -> String {
    let mut s = String::new();
    c.bg_fmt(&mut s).unwrap();
    s
}

#[test]
fn standard_colors_count_from_30_and_40() {
    let expected_fg = ["30", "31", "32", "33", "34", "35", "36", "37"];
    let expected_bg = ["40", "41", "42", "43", "44", "45", "46", "47"];
    for i in 0..8 {
        assert_eq!(fg(NAMED[i]), format!("\x1b[{}m", expected_fg[i]));
        assert_eq!(bg(NAMED[i]), format!("\x1b[{}m", expected_bg[i]));
    }
}

#[test]
fn bright_colors_count_from_90_and_100() {
    let expected_fg = ["90", "91", "92", "93", "94", "95", "96", "97"];
    let expected_bg = ["100", "101", "102", "103", "104", "105", "106", "107"];
    for i in 0..8 {
        assert_eq!(fg(NAMED[8 + i]), format!("\x1b[{}m", expected_fg[i]));
        assert_eq!(bg(NAMED[8 + i]), format!("\x1b[{}m", expected_bg[i]));
    }
}

#[test]
fn reset_restores_both_layers_from_either_encoder() {
    assert_eq!(fg(Color::Reset), "\x1b[39;49m");
    assert_eq!(bg(Color::Reset), "\x1b[39;49m");
}

#[test]
fn palette_index_is_passed_through() {
    assert_eq!(fg(Color::Color256(0)), "\x1b[38;5;0m");
    assert_eq!(fg(Color::Color256(7)), "\x1b[38;5;7m");
    assert_eq!(fg(Color::Color256(42)), "\x1b[38;5;42m");
    assert_eq!(fg(Color::Color256(100)), "\x1b[38;5;100m");
    assert_eq!(fg(Color::Color256(255)), "\x1b[38;5;255m");
    assert_eq!(bg(Color::Color256(0)), "\x1b[48;5;0m");
    assert_eq!(bg(Color::Color256(255)), "\x1b[48;5;255m");
    for n in 0..=255u8 {
        assert_eq!(fg(Color::Color256(n)), format!("\x1b[38;5;{}m", n));
        assert_eq!(bg(Color::Color256(n)), format!("\x1b[48;5;{}m", n));
    }
}

#[test]
fn true_color_lists_its_channels() {
    assert_eq!(fg(Color::TrueColor(255, 128, 0)), "\x1b[38;2;255;128;0m");
    assert_eq!(bg(Color::TrueColor(255, 128, 0)), "\x1b[48;2;255;128;0m");
    assert_eq!(fg(Color::TrueColor(0, 0, 0)), "\x1b[38;2;0;0;0m");
    assert_eq!(bg(Color::TrueColor(1, 20, 200)), "\x1b[48;2;1;20;200m");
}

#[test]
fn every_escape_opens_with_escape_bracket_and_closes_with_m() {
    let mut colors: Vec<Color> = NAMED.to_vec();
    colors.push(Color::Reset);
    for n in 0..=255u8 {
        colors.push(Color::Color256(n));
        colors.push(Color::TrueColor(n, 255 - n, n / 2));
    }
    for c in colors {
        for s in [fg(c), bg(c)] {
            assert!(s.len() >= 3);
            assert_eq!(&s.as_bytes()[..2], &[0x1b, b'[']);
            assert!(s.ends_with('m'));
        }
    }
}

#[test]
fn background_differs_from_foreground_in_the_number_only() {
    for c in NAMED {
        let f = fg(c);
        let b = bg(c);
        let fcode: u32 = f[2..f.len() - 1].parse().unwrap();
        let bcode: u32 = b[2..b.len() - 1].parse().unwrap();
        assert_eq!(bcode, fcode + 10);
    }
    for n in [0u8, 9, 10, 99, 100, 255] {
        let f = fg(Color::Color256(n));
        let b = bg(Color::Color256(n));
        assert_eq!(&f[..2], &b[..2]);
        assert_eq!(&f[2..4], "38");
        assert_eq!(&b[2..4], "48");
        assert_eq!(&f[4..], &b[4..]);
        let f = fg(Color::TrueColor(n, 3, n));
        let b = bg(Color::TrueColor(n, 3, n));
        assert_eq!(&f[2..4], "38");
        assert_eq!(&b[2..4], "48");
        assert_eq!(&f[4..], &b[4..]);
    }
}

#[test]
fn encoders_append_to_what_is_there() {
    let mut s = String::from("ab");
    Color::Green.fg_fmt(&mut s).unwrap();
    Color::Blue.bg_fmt(&mut s).unwrap();
    assert_eq!(s, "ab\x1b[32m\x1b[44m");
}

#[test]
fn write_escape_serves_both_layers() {
    let mut s = String::new();
    Color::BrightCyan.write_escape(Layer::Foreground, &mut s);
    Color::BrightCyan.write_escape(Layer::Background, &mut s);
    assert_eq!(s, "\x1b[96m\x1b[106m");
}

#[test]
fn ordinal_follows_the_palette() {
    for (i, c) in NAMED.iter().enumerate() {
        assert_eq!(c.ordinal(), Some(i as u8));
    }
    assert_eq!(Color::Reset.ordinal(), None);
    assert_eq!(Color::Color256(3).ordinal(), None);
    assert_eq!(Color::TrueColor(1, 2, 3).ordinal(), None);
}

#[test]
fn colors_compare_and_copy_by_value() {
    let a = Color::TrueColor(1, 2, 3);
    let b = a;
    assert_eq!(a, b);
    assert_ne!(a, Color::TrueColor(1, 2, 4));
    assert_ne!(Color::Color256(1), Color::Red);
    assert_eq!(Color::Red.clone(), Color::Red);
}

#[test]
fn different_colors_have_different_sequences() {
    let mut colors: Vec<Color> = NAMED.to_vec();
    colors.push(Color::Reset);
    for n in [0u8, 1, 2, 5, 12, 25, 52, 125, 255] {
        colors.push(Color::Color256(n));
        for m in [0u8, 1, 2, 5, 12, 25, 255] {
            colors.push(Color::TrueColor(n, m, 5));
            colors.push(Color::TrueColor(5, n, m));
        }
    }
    colors.dedup();
    for (i, c) in colors.iter().enumerate() {
        for d in &colors[i + 1..] {
            if c != d {
                assert_ne!(fg(*c), fg(*d));
                assert_ne!(bg(*c), bg(*d));
            }
        }
    }
    // The channels are kept apart by their separators.
    assert_ne!(fg(Color::TrueColor(1, 25, 5)), fg(Color::TrueColor(12, 5, 5)));
    assert_ne!(fg(Color::TrueColor(12, 5, 5)), fg(Color::TrueColor(1, 2, 55)));
}

#[test]
fn layers_compare_by_value() {
    assert_eq!(Layer::Foreground, Layer::Foreground);
    assert_ne!(Layer::Foreground, Layer::Background);
}
