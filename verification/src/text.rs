//! The textual form of colours: the names, palette indices and hex triplets
//! that a person writes, how a colour is written out, and how text is read
//! back as a colour.

use vstd::prelude::*;
use vstd::string::StringSliceAdditionalSpecFns;
use vstd::utf8::{encode_utf8_decode_utf8, is_ascii_chars};
use crate::color::Color;
use crate::numeral::{
    decimal, hexadecimal, lemma_numeral_chars, lemma_numeral_round_trip, lemma_numeral_value,
    digit_value, lemma_not_a_number, parse_unsigned, push_numeral, unsigned_value,
};

verus! {

/// The number whose low 24 bits hold the three channels, red uppermost.
pub open spec fn rgb_value(r: u8, g: u8, b: u8) -> nat {
    (r * 65536 + g * 256 + b) as nat
}

impl Color {
    /// The colour as text: the lowercase name of a named colour, with an
    /// underscore in the bright names; the decimal palette index; or `#` and
    /// the hexadecimal value of the three channels, without leading zeros.
    pub open spec fn text(self) -> Seq<char> {
        match self {
            Color::Black => "black"@,
            Color::Red => "red"@,
            Color::Green => "green"@,
            Color::Yellow => "yellow"@,
            Color::Blue => "blue"@,
            Color::Magenta => "magenta"@,
            Color::Cyan => "cyan"@,
            Color::White => "white"@,
            Color::BrightBlack => "bright_black"@,
            Color::BrightRed => "bright_red"@,
            Color::BrightGreen => "bright_green"@,
            Color::BrightYellow => "bright_yellow"@,
            Color::BrightBlue => "bright_blue"@,
            Color::BrightMagenta => "bright_magenta"@,
            Color::BrightCyan => "bright_cyan"@,
            Color::BrightWhite => "bright_white"@,
            Color::Reset => "reset"@,
            Color::Color256(n) => decimal(n as nat),
            Color::TrueColor(r, g, b) => "#"@ + hexadecimal(rgb_value(r, g, b)),
        }
    }
}

/// The colour that the lowercase name `s` stands for. The bright names are
/// written with an underscore or a space; `purple` is magenta, `gray` and
/// `grey` are white.
pub open spec fn named_color(s: Seq<char>) -> Option<Color> {
    if s == "black"@ {
        Some(Color::Black)
    } else if s == "red"@ {
        Some(Color::Red)
    } else if s == "green"@ {
        Some(Color::Green)
    } else if s == "yellow"@ {
        Some(Color::Yellow)
    } else if s == "blue"@ {
        Some(Color::Blue)
    } else if s == "magenta"@ || s == "purple"@ {
        Some(Color::Magenta)
    } else if s == "cyan"@ {
        Some(Color::Cyan)
    } else if s == "gray"@ || s == "grey"@ || s == "white"@ {
        Some(Color::White)
    } else if s == "bright_black"@ || s == "bright black"@ {
        Some(Color::BrightBlack)
    } else if s == "bright_red"@ || s == "bright red"@ {
        Some(Color::BrightRed)
    } else if s == "bright_green"@ || s == "bright green"@ {
        Some(Color::BrightGreen)
    } else if s == "bright_yellow"@ || s == "bright yellow"@ {
        Some(Color::BrightYellow)
    } else if s == "bright_blue"@ || s == "bright blue"@ {
        Some(Color::BrightBlue)
    } else if s == "bright_magenta"@ || s == "bright magenta"@ {
        Some(Color::BrightMagenta)
    } else if s == "bright_cyan"@ || s == "bright cyan"@ {
        Some(Color::BrightCyan)
    } else if s == "bright_white"@ || s == "bright white"@ {
        Some(Color::BrightWhite)
    } else if s == "reset"@ {
        Some(Color::Reset)
    } else {
        None
    }
}

/// The 24-bit colour in the low 24 bits of `v`.
pub open spec fn color_of_rgb(v: nat) -> Color {
    Color::TrueColor(((v / 65536) % 256) as u8, ((v / 256) % 256) as u8, (v % 256) as u8)
}

/// `s` without one leading `#`, if it has one.
pub open spec fn without_hash(s: Seq<char>) -> Seq<char> {
    if s.len() > 0 && s[0] == '#' {
        s.drop_first()
    } else {
        s
    }
}

/// The colour that lowercase text stands for. A name comes first; then a
/// decimal number up to 255, which is a palette index; then, after an
/// optional `#`, a hexadecimal number of 32 bits whose low 24 bits are the
/// channels. Other text is no colour.
pub open spec fn color_of_lowercase(s: Seq<char>) -> Option<Color> {
    match named_color(s) {
        Some(c) => Some(c),
        None => match unsigned_value(s, 10, 255) {
            Some(n) => Some(Color::Color256(n as u8)),
            None => match unsigned_value(without_hash(s), 16, 0xffff_ffff) {
                Some(v) => Some(color_of_rgb(v)),
                None => None,
            },
        },
    }
}

/// The lowercase form of text that holds a character outside ASCII, by the
/// case mappings of Unicode.
pub uninterp spec fn unicode_lowercase(s: Seq<char>) -> Seq<char>;

/// The lowercase form of an ASCII character.
pub open spec fn ascii_lowercase_char(c: char) -> char {
    if 'A' <= c <= 'Z' {
        ((c as u8 + 32) as u8) as char
    } else {
        c
    }
}

/// The lowercase form of ASCII text: each capital letter replaced by its
/// small letter, everything else kept.
pub open spec fn ascii_lowercase(s: Seq<char>) -> Seq<char> {
    s.map_values(|c: char| ascii_lowercase_char(c))
}

/// The lowercase form of text.
pub open spec fn lowercase(s: Seq<char>) -> Seq<char> {
    if is_ascii_chars(s) {
        ascii_lowercase(s)
    } else {
        unicode_lowercase(s)
    }
}

/// The colour that text stands for, whatever the case of its letters.
pub open spec fn color_of_text(s: Seq<char>) -> Option<Color> {
    color_of_lowercase(lowercase(s))
}

/// What is said of text that is no colour.
pub open spec fn invalid_color_message(s: Seq<char>) -> Seq<char> {
    "'"@ + s + "' is not a valid color"@
}

/// `str::to_lowercase`. ASCII text comes back with its capital letters
/// replaced by small ones and nothing else changed; for other text the
/// result is the lowercase form that Unicode defines, which is only named
/// here.
#[verifier::external_body]
fn to_lowercase(s: &str) -> (r: String)
    ensures
        is_ascii_chars(s@) ==> r@ == ascii_lowercase(s@),
        !is_ascii_chars(s@) ==> r@ == unicode_lowercase(s@),
{
    s.to_lowercase()
}

/// Whether two strings hold the same text.
fn same_text(a: &str, b: &str) -> (r: bool)
    ensures
        r == (a@ == b@),
{
    let x = a.as_bytes();
    let y = b.as_bytes();
    if x.len() != y.len() {
        return false;
    }
    let mut i: usize = 0;
    while i < x.len()
        invariant
            x@ == a.spec_bytes(),
            y@ == b.spec_bytes(),
            x@.len() == y@.len(),
            i <= x@.len(),
            x@.take(i as int) == y@.take(i as int),
        decreases x.len() - i,
    {
        if x[i] != y[i] {
            return false;
        }
        assert(x@.take(i + 1) =~= x@.take(i as int).push(x@[i as int]));
        assert(y@.take(i + 1) =~= y@.take(i as int).push(y@[i as int]));
        i += 1;
    }
    proof {
        assert(x@ =~= x@.take(i as int));
        assert(y@ =~= y@.take(i as int));
        encode_utf8_decode_utf8(a@);
        encode_utf8_decode_utf8(b@);
    }
    true
}

/// Looks a lowercase name up among the names of colours.
fn lookup_name(s: &str) -> (r: Option<Color>)
    ensures
        r == named_color(s@),
{
    if same_text(s, "black") {
        Some(Color::Black)
    } else if same_text(s, "red") {
        Some(Color::Red)
    } else if same_text(s, "green") {
        Some(Color::Green)
    } else if same_text(s, "yellow") {
        Some(Color::Yellow)
    } else if same_text(s, "blue") {
        Some(Color::Blue)
    } else if same_text(s, "magenta") || same_text(s, "purple") {
        Some(Color::Magenta)
    } else if same_text(s, "cyan") {
        Some(Color::Cyan)
    } else if same_text(s, "gray") || same_text(s, "grey") || same_text(s, "white") {
        Some(Color::White)
    } else if same_text(s, "bright_black") || same_text(s, "bright black") {
        Some(Color::BrightBlack)
    } else if same_text(s, "bright_red") || same_text(s, "bright red") {
        Some(Color::BrightRed)
    } else if same_text(s, "bright_green") || same_text(s, "bright green") {
        Some(Color::BrightGreen)
    } else if same_text(s, "bright_yellow") || same_text(s, "bright yellow") {
        Some(Color::BrightYellow)
    } else if same_text(s, "bright_blue") || same_text(s, "bright blue") {
        Some(Color::BrightBlue)
    } else if same_text(s, "bright_magenta") || same_text(s, "bright magenta") {
        Some(Color::BrightMagenta)
    } else if same_text(s, "bright_cyan") || same_text(s, "bright cyan") {
        Some(Color::BrightCyan)
    } else if same_text(s, "bright_white") || same_text(s, "bright white") {
        Some(Color::BrightWhite)
    } else if same_text(s, "reset") {
        Some(Color::Reset)
    } else {
        None
    }
}

/// The names of the colours, character by character.
pub proof fn lemma_names_spelled_out()
    ensures
        "black"@ == seq!['b', 'l', 'a', 'c', 'k'],
        "red"@ == seq!['r', 'e', 'd'],
        "green"@ == seq!['g', 'r', 'e', 'e', 'n'],
        "yellow"@ == seq!['y', 'e', 'l', 'l', 'o', 'w'],
        "blue"@ == seq!['b', 'l', 'u', 'e'],
        "magenta"@ == seq!['m', 'a', 'g', 'e', 'n', 't', 'a'],
        "purple"@ == seq!['p', 'u', 'r', 'p', 'l', 'e'],
        "cyan"@ == seq!['c', 'y', 'a', 'n'],
        "gray"@ == seq!['g', 'r', 'a', 'y'],
        "grey"@ == seq!['g', 'r', 'e', 'y'],
        "white"@ == seq!['w', 'h', 'i', 't', 'e'],
        "bright_black"@ == seq!['b', 'r', 'i', 'g', 'h', 't', '_', 'b', 'l', 'a', 'c', 'k'],
        "bright black"@ == seq!['b', 'r', 'i', 'g', 'h', 't', ' ', 'b', 'l', 'a', 'c', 'k'],
        "bright_red"@ == seq!['b', 'r', 'i', 'g', 'h', 't', '_', 'r', 'e', 'd'],
        "bright red"@ == seq!['b', 'r', 'i', 'g', 'h', 't', ' ', 'r', 'e', 'd'],
        "bright_green"@ == seq!['b', 'r', 'i', 'g', 'h', 't', '_', 'g', 'r', 'e', 'e', 'n'],
        "bright green"@ == seq!['b', 'r', 'i', 'g', 'h', 't', ' ', 'g', 'r', 'e', 'e', 'n'],
        "bright_yellow"@ == seq!['b', 'r', 'i', 'g', 'h', 't', '_', 'y', 'e', 'l', 'l', 'o', 'w'],
        "bright yellow"@ == seq!['b', 'r', 'i', 'g', 'h', 't', ' ', 'y', 'e', 'l', 'l', 'o', 'w'],
        "bright_blue"@ == seq!['b', 'r', 'i', 'g', 'h', 't', '_', 'b', 'l', 'u', 'e'],
        "bright blue"@ == seq!['b', 'r', 'i', 'g', 'h', 't', ' ', 'b', 'l', 'u', 'e'],
        "bright_magenta"@ == seq![
            'b',
            'r',
            'i',
            'g',
            'h',
            't',
            '_',
            'm',
            'a',
            'g',
            'e',
            'n',
            't',
            'a',
        ],
        "bright magenta"@ == seq![
            'b',
            'r',
            'i',
            'g',
            'h',
            't',
            ' ',
            'm',
            'a',
            'g',
            'e',
            'n',
            't',
            'a',
        ],
        "bright_cyan"@ == seq!['b', 'r', 'i', 'g', 'h', 't', '_', 'c', 'y', 'a', 'n'],
        "bright cyan"@ == seq!['b', 'r', 'i', 'g', 'h', 't', ' ', 'c', 'y', 'a', 'n'],
        "bright_white"@ == seq!['b', 'r', 'i', 'g', 'h', 't', '_', 'w', 'h', 'i', 't', 'e'],
        "bright white"@ == seq!['b', 'r', 'i', 'g', 'h', 't', ' ', 'w', 'h', 'i', 't', 'e'],
        "reset"@ == seq!['r', 'e', 's', 'e', 't'],
{
    reveal_strlit("black");
    reveal_strlit("red");
    reveal_strlit("green");
    reveal_strlit("yellow");
    reveal_strlit("blue");
    reveal_strlit("magenta");
    reveal_strlit("purple");
    reveal_strlit("cyan");
    reveal_strlit("gray");
    reveal_strlit("grey");
    reveal_strlit("white");
    reveal_strlit("bright_black");
    reveal_strlit("bright black");
    reveal_strlit("bright_red");
    reveal_strlit("bright red");
    reveal_strlit("bright_green");
    reveal_strlit("bright green");
    reveal_strlit("bright_yellow");
    reveal_strlit("bright yellow");
    reveal_strlit("bright_blue");
    reveal_strlit("bright blue");
    reveal_strlit("bright_magenta");
    reveal_strlit("bright magenta");
    reveal_strlit("bright_cyan");
    reveal_strlit("bright cyan");
    reveal_strlit("bright_white");
    reveal_strlit("bright white");
    reveal_strlit("reset");
    assert("black"@ =~= seq!['b', 'l', 'a', 'c', 'k']);
    assert("red"@ =~= seq!['r', 'e', 'd']);
    assert("green"@ =~= seq!['g', 'r', 'e', 'e', 'n']);
    assert("yellow"@ =~= seq!['y', 'e', 'l', 'l', 'o', 'w']);
    assert("blue"@ =~= seq!['b', 'l', 'u', 'e']);
    assert("magenta"@ =~= seq!['m', 'a', 'g', 'e', 'n', 't', 'a']);
    assert("purple"@ =~= seq!['p', 'u', 'r', 'p', 'l', 'e']);
    assert("cyan"@ =~= seq!['c', 'y', 'a', 'n']);
    assert("gray"@ =~= seq!['g', 'r', 'a', 'y']);
    assert("grey"@ =~= seq!['g', 'r', 'e', 'y']);
    assert("white"@ =~= seq!['w', 'h', 'i', 't', 'e']);
    assert("bright_black"@ =~= seq!['b', 'r', 'i', 'g', 'h', 't', '_', 'b', 'l', 'a', 'c', 'k']);
    assert("bright black"@ =~= seq!['b', 'r', 'i', 'g', 'h', 't', ' ', 'b', 'l', 'a', 'c', 'k']);
    assert("bright_red"@ =~= seq!['b', 'r', 'i', 'g', 'h', 't', '_', 'r', 'e', 'd']);
    assert("bright red"@ =~= seq!['b', 'r', 'i', 'g', 'h', 't', ' ', 'r', 'e', 'd']);
    assert("bright_green"@ =~= seq!['b', 'r', 'i', 'g', 'h', 't', '_', 'g', 'r', 'e', 'e', 'n']);
    assert("bright green"@ =~= seq!['b', 'r', 'i', 'g', 'h', 't', ' ', 'g', 'r', 'e', 'e', 'n']);
    assert("bright_yellow"@ =~= seq![
        'b',
        'r',
        'i',
        'g',
        'h',
        't',
        '_',
        'y',
        'e',
        'l',
        'l',
        'o',
        'w',
    ]);
    assert("bright yellow"@ =~= seq![
        'b',
        'r',
        'i',
        'g',
        'h',
        't',
        ' ',
        'y',
        'e',
        'l',
        'l',
        'o',
        'w',
    ]);
    assert("bright_blue"@ =~= seq!['b', 'r', 'i', 'g', 'h', 't', '_', 'b', 'l', 'u', 'e']);
    assert("bright blue"@ =~= seq!['b', 'r', 'i', 'g', 'h', 't', ' ', 'b', 'l', 'u', 'e']);
    assert("bright_magenta"@ =~= seq![
        'b',
        'r',
        'i',
        'g',
        'h',
        't',
        '_',
        'm',
        'a',
        'g',
        'e',
        'n',
        't',
        'a',
    ]);
    assert("bright magenta"@ =~= seq![
        'b',
        'r',
        'i',
        'g',
        'h',
        't',
        ' ',
        'm',
        'a',
        'g',
        'e',
        'n',
        't',
        'a',
    ]);
    assert("bright_cyan"@ =~= seq!['b', 'r', 'i', 'g', 'h', 't', '_', 'c', 'y', 'a', 'n']);
    assert("bright cyan"@ =~= seq!['b', 'r', 'i', 'g', 'h', 't', ' ', 'c', 'y', 'a', 'n']);
    assert("bright_white"@ =~= seq!['b', 'r', 'i', 'g', 'h', 't', '_', 'w', 'h', 'i', 't', 'e']);
    assert("bright white"@ =~= seq!['b', 'r', 'i', 'g', 'h', 't', ' ', 'w', 'h', 'i', 't', 'e']);
    assert("reset"@ =~= seq!['r', 'e', 's', 'e', 't']);
}

/// A name of a colour is ASCII text in lowercase that begins with a letter.
pub proof fn lemma_names_are_lowercase(s: Seq<char>)
    requires
        named_color(s) is Some,
    ensures
        is_ascii_chars(s),
        ascii_lowercase(s) == s,
        s.len() > 0,
        'a' <= s[0] <= 'z',
{
    lemma_names_spelled_out();
    assert forall|i: int| 0 <= i < s.len() implies 'a' <= #[trigger] s[i] <= 'z' || s[i] == '_'
        || s[i] == ' ' by {}
    assert(ascii_lowercase(s) =~= s);
}

/// Text that holds a character outside ASCII is no colour.
pub proof fn lemma_color_is_ascii(s: Seq<char>)
    requires
        !is_ascii_chars(s),
    ensures
        color_of_lowercase(s) is None,
{
    let i = choose|i: int| 0 <= i < s.len() && !('\0' <= #[trigger] s[i] <= '\u{7f}');
    if named_color(s) is Some {
        lemma_names_are_lowercase(s);
    }
    lemma_not_a_number(s, i, 10, 255);
    let t = without_hash(s);
    if s[0] == '#' {
        assert(i >= 1);
        assert(t[i - 1] == s[i]);
        lemma_not_a_number(t, i - 1, 16, 0xffff_ffff);
    } else {
        lemma_not_a_number(t, i, 16, 0xffff_ffff);
    }
}

/// ASCII text is read without regard to the case of its letters: two texts
/// that differ in case alone stand for the same colour, or both for none.
pub proof fn lemma_case_is_ignored(s: Seq<char>, t: Seq<char>)
    requires
        is_ascii_chars(s),
        is_ascii_chars(t),
        ascii_lowercase(s) == ascii_lowercase(t),
    ensures
        color_of_text(s) == color_of_text(t),
{
}

/// The name that a named colour or the default is written with is read as
/// that colour.
pub proof fn lemma_name_is_read(c: Color)
    requires
        c.palette_index() is Some || c == Color::Reset,
    ensures
        named_color(c.text()) == Some(c),
{
    lemma_names_spelled_out();
}

/// A palette index written in decimal is read as that index.
pub proof fn lemma_index_is_read(n: u8)
    ensures
        color_of_text(decimal(n as nat)) == Some(Color::Color256(n)),
{
    let s = decimal(n as nat);
    lemma_numeral_chars(n as nat, 10);
    lemma_numeral_value(n as nat, 10);
    lemma_numeral_round_trip(n as nat, 10, 255);
    assert(is_ascii_chars(s));
    assert(ascii_lowercase(s) =~= s);
    assert(lowercase(s) == s);
    assert(digit_value(s[0], 10) is Some);
    assert('0' <= s[0] <= '9');
    if named_color(s) is Some {
        lemma_names_are_lowercase(s);
    }
    assert(named_color(s) is None);
    assert(unsigned_value(s, 10, 255) == Some(n as nat));
}

/// A 24-bit colour written as `#` and hexadecimal digits is read as that
/// colour.
pub proof fn lemma_triplet_is_read(r: u8, g: u8, b: u8)
    ensures
        color_of_text("#"@ + hexadecimal(rgb_value(r, g, b))) == Some(Color::TrueColor(r, g, b)),
{
    let v = rgb_value(r, g, b);
    let h = hexadecimal(v);
    let s = "#"@ + h;
    reveal_strlit("#");
    lemma_numeral_chars(v, 16);
    lemma_numeral_value(v, 16);
    lemma_numeral_round_trip(v, 16, 0xffff_ffff);
    assert(s[0] == '#');
    assert forall|i: int| 0 <= i < s.len() implies '0' <= #[trigger] s[i] <= '9' || 'a' <= s[i]
        <= 'z' || s[i] == '#' by {
        if i > 0 {
            assert(s[i] == h[i - 1]);
        }
    }
    assert(is_ascii_chars(s));
    assert(ascii_lowercase(s) =~= s);
    assert(lowercase(s) == s);
    if named_color(s) is Some {
        lemma_names_are_lowercase(s);
    }
    assert(named_color(s) is None);
    lemma_not_a_number(s, 0, 10, 255);
    assert(without_hash(s) =~= h);
    assert(unsigned_value(h, 16, 0xffff_ffff) == Some(v));
    assert(color_of_rgb(v) == Color::TrueColor(r, g, b));
}

/// Writing a colour out and reading the text back gives the colour again:
/// for the sixteen names and the default, for every palette index, and for
/// every 24-bit colour.
pub proof fn lemma_text_round_trip(c: Color)
    ensures
        color_of_text(c.text()) == Some(c),
{
    match c {
        Color::Color256(n) => {
            lemma_index_is_read(n);
        },
        Color::TrueColor(r, g, b) => {
            lemma_triplet_is_read(r, g, b);
        },
        _ => {
            lemma_name_is_read(c);
            lemma_names_are_lowercase(c.text());
        },
    }
}

/// Reads lowercase text as a colour.
pub fn parse_lowercase(s: &str) -> (r: Option<Color>)
    ensures
        r == color_of_lowercase(s@),
{
    broadcast use vstd::string::is_ascii_spec_bytes;

    if !s.is_ascii() {
        proof {
            lemma_color_is_ascii(s@);
        }
        return None;
    }
    match lookup_name(s) {
        Some(c) => {
            return Some(c);
        },
        None => {},
    }
    match parse_unsigned(s, 10, 255) {
        Some(n) => {
            return Some(Color::Color256(n as u8));
        },
        None => {},
    }
    let bytes = s.as_bytes();
    let n = bytes.len();
    let rest = if n > 0 && bytes[0] == 35 {
        assert(s@[0] == bytes[0] as char);
        s.substring_ascii(1, n)
    } else {
        s
    };
    assert(rest@ =~= without_hash(s@));
    match parse_unsigned(rest, 16, 0xffff_ffff) {
        Some(v) => Some(
            Color::TrueColor(
                ((v / 65536) % 256) as u8,
                ((v / 256) % 256) as u8,
                (v % 256) as u8,
            ),
        ),
        None => None,
    }
}

impl Color {
    /// Reads text as a colour, whatever the case of its letters: a name, a
    /// palette index or a hex triplet. Text that is none of these is
    /// answered with a message that quotes it.
    pub fn from_str(s: &str) -> (r: Result<Color, String>)
        ensures
            match color_of_text(s@) {
                Some(c) => r == Ok::<Color, String>(c),
                None => r is Err && r->Err_0@ == invalid_color_message(s@),
            },
    {
        let src = to_lowercase(s);
        match parse_lowercase(src.as_str()) {
            Some(c) => Ok(c),
            None => {
                let mut e = String::new();
                e.append("'");
                e.append(s);
                e.append("' is not a valid color");
                assert(e@ =~= invalid_color_message(s@));
                Err(e)
            },
        }
    }

    /// Writes the colour out as text.
    pub fn to_string(&self) -> (s: String)
        ensures
            s@ == self.text(),
    {
        match self {
            Color::Black => "black".to_owned(),
            Color::Red => "red".to_owned(),
            Color::Green => "green".to_owned(),
            Color::Yellow => "yellow".to_owned(),
            Color::Blue => "blue".to_owned(),
            Color::Magenta => "magenta".to_owned(),
            Color::Cyan => "cyan".to_owned(),
            Color::White => "white".to_owned(),
            Color::BrightBlack => "bright_black".to_owned(),
            Color::BrightRed => "bright_red".to_owned(),
            Color::BrightGreen => "bright_green".to_owned(),
            Color::BrightYellow => "bright_yellow".to_owned(),
            Color::BrightBlue => "bright_blue".to_owned(),
            Color::BrightMagenta => "bright_magenta".to_owned(),
            Color::BrightCyan => "bright_cyan".to_owned(),
            Color::BrightWhite => "bright_white".to_owned(),
            Color::Reset => "reset".to_owned(),
            Color::Color256(n) => {
                let mut s = String::new();
                push_numeral(&mut s, *n as u32, 10);
                assert(s@ =~= decimal(*n as nat));
                s
            },
            Color::TrueColor(r, g, b) => {
                let mut s = "#".to_owned();
                push_numeral(&mut s, (*r as u32) * 65536 + (*g as u32) * 256 + (*b as u32), 16);
                s
            },
        }
    }
}

impl std::str::FromStr for Color {
    type Err = String;

    fn from_str(s: &str) -> (r: Result<Color, String>)
        ensures
            match color_of_text(s@) {
                Some(c) => r == Ok::<Color, String>(c),
                None => r is Err && r->Err_0@ == invalid_color_message(s@),
            },
    {
        Color::from_str(s)
    }
}

} // verus!
