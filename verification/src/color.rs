//! The terminal colour model: sixteen named colours, the terminal's default,
//! a palette index and a 24-bit colour, with their ANSI escape sequences.

use vstd::prelude::*;
use crate::numeral::{decimal, lemma_numeral_chars, lemma_numeral_injective, numeral, push_numeral};
pub use crate::mapper::{Color16Mapper, Color256Mapper, ColorMapper, NoColorMapper, TrueColorMapper};

verus! {

/// `std::fmt::Error`, the error of the formatting functions: a marker
/// without contents, passed through unread.
#[verifier::external_type_specification]
#[verifier::external_body]
pub struct ExFmtError(std::fmt::Error);

/// A colour that a terminal can be asked to show.
#[derive(Debug, Copy, Clone, Eq, PartialEq, Structural)]
pub enum Color {
    Black,
    Red,
    Green,
    Yellow,
    Blue,
    Magenta,
    Cyan,
    White,
    BrightBlack,
    BrightRed,
    BrightGreen,
    BrightYellow,
    BrightBlue,
    BrightMagenta,
    BrightCyan,
    BrightWhite,
    /// The terminal's default foreground and background.
    Reset,
    /// An index into the terminal's palette of 256 colours.
    Color256(u8),
    /// Red, green and blue channels.
    TrueColor(u8, u8, u8),
}

/// Which of the two layers of a character cell an escape sequence colours.
#[derive(Debug, Copy, Clone, Eq, PartialEq, Structural)]
pub enum Layer {
    Foreground,
    Background,
}

impl Layer {
    /// What the layer adds to a foreground parameter: nothing for the
    /// foreground, ten for the background.
    pub open spec fn shift(self) -> nat {
        match self {
            Layer::Foreground => 0,
            Layer::Background => 10,
        }
    }
}

/// The sixteen named colours in palette order, black first and bright white
/// last.
pub open spec fn palette() -> Seq<Color> {
    seq![
        Color::Black,
        Color::Red,
        Color::Green,
        Color::Yellow,
        Color::Blue,
        Color::Magenta,
        Color::Cyan,
        Color::White,
        Color::BrightBlack,
        Color::BrightRed,
        Color::BrightGreen,
        Color::BrightYellow,
        Color::BrightBlue,
        Color::BrightMagenta,
        Color::BrightCyan,
        Color::BrightWhite,
    ]
}

/// An escape sequence that selects a graphic rendition: the escape
/// character, a bracket, the parameters and a closing `m`.
pub open spec fn sgr(params: Seq<char>) -> Seq<char> {
    "\x1b["@ + params + "m"@
}

impl Color {
    /// The colour's place among the sixteen named colours, if it is one.
    pub open spec fn palette_index(self) -> Option<nat> {
        match self {
            Color::Black => Some(0),
            Color::Red => Some(1),
            Color::Green => Some(2),
            Color::Yellow => Some(3),
            Color::Blue => Some(4),
            Color::Magenta => Some(5),
            Color::Cyan => Some(6),
            Color::White => Some(7),
            Color::BrightBlack => Some(8),
            Color::BrightRed => Some(9),
            Color::BrightGreen => Some(10),
            Color::BrightYellow => Some(11),
            Color::BrightBlue => Some(12),
            Color::BrightMagenta => Some(13),
            Color::BrightCyan => Some(14),
            Color::BrightWhite => Some(15),
            _ => None,
        }
    }

    /// The number that introduces the colour in a foreground sequence: a
    /// standard colour is numbered from 30 and a bright one from 90, each by
    /// its place among its eight; the palette and 24-bit forms are
    /// introduced by 38. The default has no such number.
    pub open spec fn code(self) -> Option<nat> {
        match self {
            Color::Reset => None,
            Color::Color256(_) => Some(38),
            Color::TrueColor(_, _, _) => Some(38),
            _ => {
                let i = self.palette_index().unwrap();
                if i < 8 {
                    Some(30 + i)
                } else {
                    Some((90 + i - 8) as nat)
                }
            },
        }
    }

    /// What follows the introducing number: the palette index after `5`, the
    /// three channels after `2`, nothing for a named colour.
    pub open spec fn detail(self) -> Seq<char> {
        match self {
            Color::Color256(n) => ";5;"@ + decimal(n as nat),
            Color::TrueColor(r, g, b) => ";2;"@ + decimal(r as nat) + ";"@ + decimal(g as nat)
                + ";"@ + decimal(b as nat),
            _ => Seq::empty(),
        }
    }

    /// The parameters of the escape sequence that sets `layer` to this
    /// colour: the introducing number, ten higher for the background, and
    /// the detail. The default resets both layers, whichever is asked for.
    pub open spec fn params(self, layer: Layer) -> Seq<char> {
        match self.code() {
            None => "39;49"@,
            Some(k) => decimal(k + layer.shift()) + self.detail(),
        }
    }

    /// The escape sequence that sets `layer` to this colour.
    pub open spec fn escape(self, layer: Layer) -> Seq<char> {
        sgr(self.params(layer))
    }

    /// The escape sequence that sets the foreground to this colour.
    pub open spec fn fg(self) -> Seq<char> {
        self.escape(Layer::Foreground)
    }

    /// The escape sequence that sets the background to this colour.
    pub open spec fn bg(self) -> Seq<char> {
        self.escape(Layer::Background)
    }

    /// The colour's place among the sixteen named colours, if it is one.
    pub fn ordinal(&self) -> (r: Option<u8>)
        ensures
            match self.palette_index() {
                Some(i) => r == Some(i as u8) && i < 16,
                None => r is None,
            },
    {
        match self {
            Color::Black => Some(0),
            Color::Red => Some(1),
            Color::Green => Some(2),
            Color::Yellow => Some(3),
            Color::Blue => Some(4),
            Color::Magenta => Some(5),
            Color::Cyan => Some(6),
            Color::White => Some(7),
            Color::BrightBlack => Some(8),
            Color::BrightRed => Some(9),
            Color::BrightGreen => Some(10),
            Color::BrightYellow => Some(11),
            Color::BrightBlue => Some(12),
            Color::BrightMagenta => Some(13),
            Color::BrightCyan => Some(14),
            Color::BrightWhite => Some(15),
            _ => None,
        }
    }

    /// Appends to `f` the escape sequence that sets `layer` to this colour.
    pub fn write_escape(&self, layer: Layer, f: &mut String)
        ensures
            final(f)@ == old(f)@ + self.escape(layer),
    {
        let shift: u32 = match layer {
            Layer::Foreground => 0,
            Layer::Background => 10,
        };
        let ghost before = f@;
        f.append("\x1b[");
        let ghost opened = f@;
        match self {
            Color::Reset => {
                f.append("39;49");
            },
            Color::Color256(n) => {
                push_numeral(f, 38 + shift, 10);
                f.append(";5;");
                push_numeral(f, *n as u32, 10);
            },
            Color::TrueColor(r, g, b) => {
                push_numeral(f, 38 + shift, 10);
                f.append(";2;");
                push_numeral(f, *r as u32, 10);
                f.append(";");
                push_numeral(f, *g as u32, 10);
                f.append(";");
                push_numeral(f, *b as u32, 10);
            },
            _ => {
                let i = self.ordinal().unwrap() as u32;
                if i < 8 {
                    push_numeral(f, 30 + i + shift, 10);
                } else {
                    push_numeral(f, 90 + i - 8 + shift, 10);
                }
            },
        }
        assert(f@ =~= opened + self.params(layer));
        f.append("m");
        assert(f@ =~= before + self.escape(layer));
    }

    /// Appends to `f` the escape sequence that sets the foreground to this
    /// colour. Writing into a string cannot fail.
    pub fn fg_fmt(&self, f: &mut String) -> (r: Result<(), std::fmt::Error>)
        ensures
            r is Ok,
            final(f)@ == old(f)@ + self.fg(),
    {
        self.write_escape(Layer::Foreground, f);
        Ok(())
    }

    /// Appends to `f` the escape sequence that sets the background to this
    /// colour. Writing into a string cannot fail.
    pub fn bg_fmt(&self, f: &mut String) -> (r: Result<(), std::fmt::Error>)
        ensures
            r is Ok,
            final(f)@ == old(f)@ + self.bg(),
    {
        self.write_escape(Layer::Background, f);
        Ok(())
    }
}

/// Every escape sequence of a colour begins with the escape character and
/// an opening bracket and ends with `m`.
pub proof fn lemma_escape_shape(c: Color, layer: Layer)
    ensures
        c.escape(layer).len() >= 3,
        c.escape(layer)[0] == '\x1b',
        c.escape(layer)[1] == '[',
        c.escape(layer).last() == 'm',
{
    reveal_strlit("\x1b[");
    reveal_strlit("m");
}

/// The background sequence of a colour is its foreground sequence with the
/// introducing number raised by ten, and nothing else changed. For the
/// default the two are the same sequence.
pub proof fn lemma_layers_differ_in_code(c: Color)
    ensures
        match c.code() {
            Some(k) => c.fg() == sgr(decimal(k) + c.detail()) && c.bg() == sgr(
                decimal(k + 10) + c.detail(),
            ),
            None => c == Color::Reset && c.fg() == c.bg(),
        },
{
}

/// A colour has a place in the palette exactly if it is one of the sixteen
/// named colours, and the palette holds it at that place.
pub proof fn lemma_palette_index(c: Color)
    ensures
        match c.palette_index() {
            Some(i) => i < 16 && palette()[i as int] == c,
            None => c == Color::Reset || c is Color256 || c is TrueColor,
        },
        palette().len() == 16,
{
}

/// The number that opens the parameters of a colour on a layer.
spec fn lead(c: Color, layer: Layer) -> nat {
    match c.code() {
        Some(k) => k + layer.shift(),
        None => 39,
    }
}

/// What follows the opening number in the parameters of a colour.
spec fn trail(c: Color) -> Seq<char> {
    match c {
        Color::Reset => ";49"@,
        _ => c.detail(),
    }
}

/// The parameters of a colour are a decimal number and then either nothing
/// or text that begins with a semicolon.
proof fn lemma_params_split(c: Color, layer: Layer)
    ensures
        c.params(layer) == decimal(lead(c, layer)) + trail(c),
        trail(c).len() > 0 ==> trail(c)[0] == ';',
        forall|i: int|
            0 <= i < decimal(lead(c, layer)).len() ==> (#[trigger] decimal(lead(c, layer))[i])
                != ';',
{
    reveal_strlit("39;49");
    reveal_strlit(";49");
    reveal_strlit(";5;");
    reveal_strlit(";2;");
    lemma_numeral_chars(lead(c, layer), 10);
    match c {
        Color::Reset => {
            reveal_with_fuel(numeral, 3);
            assert(decimal(39) =~= seq!['3', '9']);
            assert(c.params(layer) =~= decimal(39) + trail(c));
        },
        _ => {},
    }
}

/// Two texts that each consist of a run without semicolon and of a rest
/// that is empty or begins with a semicolon are equal only if the runs are
/// equal and the rests are equal.
proof fn lemma_split_at_semicolon(a: Seq<char>, x: Seq<char>, b: Seq<char>, y: Seq<char>)
    requires
        a + x == b + y,
        forall|i: int| 0 <= i < a.len() ==> (#[trigger] a[i]) != ';',
        forall|i: int| 0 <= i < b.len() ==> (#[trigger] b[i]) != ';',
        x.len() > 0 ==> x[0] == ';',
        y.len() > 0 ==> y[0] == ';',
    ensures
        a == b,
        x == y,
{
    let s = a + x;
    let t = b + y;
    assert(s.len() == a.len() + x.len());
    assert(t.len() == b.len() + y.len());
    if a.len() < b.len() {
        assert(s[a.len() as int] == x[0]);
        assert(t[a.len() as int] == b[a.len() as int]);
    }
    if b.len() < a.len() {
        assert(t[b.len() as int] == y[0]);
        assert(s[b.len() as int] == a[b.len() as int]);
    }
    assert forall|i: int| 0 <= i < a.len() implies a[i] == b[i] by {
        assert(s[i] == a[i]);
        assert(t[i] == b[i]);
    }
    assert(a =~= b);
    assert forall|i: int| 0 <= i < x.len() implies x[i] == y[i] by {
        assert(s[a.len() + i] == x[i]);
        assert(t[b.len() + i] == y[i]);
    }
    assert(x =~= y);
}

/// Equal parameters have equal opening numbers and equal rests.
proof fn lemma_params_parts(c: Color, d: Color, layer: Layer)
    requires
        c.params(layer) == d.params(layer),
    ensures
        lead(c, layer) == lead(d, layer),
        trail(c) == trail(d),
{
    lemma_params_split(c, layer);
    lemma_params_split(d, layer);
    lemma_split_at_semicolon(
        decimal(lead(c, layer)),
        trail(c),
        decimal(lead(d, layer)),
        trail(d),
    );
    lemma_numeral_injective(lead(c, layer), lead(d, layer), 10);
}

/// Two numerals that are followed by the same text after the same three
/// characters are numerals of the same number.
proof fn lemma_same_index(m: u8, n: u8)
    requires
        ";5;"@ + decimal(m as nat) == ";5;"@ + decimal(n as nat),
    ensures
        m == n,
{
    reveal_strlit(";5;");
    let t = ";5;"@ + decimal(m as nat);
    assert(decimal(m as nat) =~= t.subrange(3, t.len() as int));
    assert(decimal(n as nat) =~= t.subrange(3, t.len() as int));
    lemma_numeral_injective(m as nat, n as nat, 10);
}

/// Three numerals separated by semicolons give the three numbers back.
proof fn lemma_same_channels(r1: u8, g1: u8, b1: u8, r2: u8, g2: u8, b2: u8)
    requires
        Color::TrueColor(r1, g1, b1).detail() == Color::TrueColor(r2, g2, b2).detail(),
    ensures
        r1 == r2,
        g1 == g2,
        b1 == b2,
{
    reveal_strlit(";2;");
    reveal_strlit(";");
    let t = Color::TrueColor(r1, g1, b1).detail();
    lemma_numeral_chars(r1 as nat, 10);
    lemma_numeral_chars(r2 as nat, 10);
    lemma_numeral_chars(g1 as nat, 10);
    lemma_numeral_chars(g2 as nat, 10);
    let y1 = ";"@ + decimal(b1 as nat);
    let y2 = ";"@ + decimal(b2 as nat);
    let x1 = ";"@ + (decimal(g1 as nat) + y1);
    let x2 = ";"@ + (decimal(g2 as nat) + y2);
    let u = t.subrange(3, t.len() as int);
    assert(decimal(r1 as nat) + x1 =~= u);
    assert(decimal(r2 as nat) + x2 =~= u);
    lemma_split_at_semicolon(decimal(r1 as nat), x1, decimal(r2 as nat), x2);
    lemma_numeral_injective(r1 as nat, r2 as nat, 10);
    let v = x1.subrange(1, x1.len() as int);
    assert(decimal(g1 as nat) + y1 =~= v);
    assert(decimal(g2 as nat) + y2 =~= v);
    lemma_split_at_semicolon(decimal(g1 as nat), y1, decimal(g2 as nat), y2);
    lemma_numeral_injective(g1 as nat, g2 as nat, 10);
    assert(decimal(b1 as nat) =~= y1.subrange(1, y1.len() as int));
    assert(decimal(b2 as nat) =~= y1.subrange(1, y1.len() as int));
    lemma_numeral_injective(b1 as nat, b2 as nat, 10);
}

/// The escape sequence loses nothing: on one layer, different colours have
/// different sequences.
pub proof fn lemma_escape_is_lossless(c: Color, d: Color, layer: Layer)
    requires
        c.escape(layer) == d.escape(layer),
    ensures
        c == d,
{
    assert(c.params(layer) == d.params(layer)) by {
        reveal_strlit("\x1b[");
        reveal_strlit("m");
        let e = c.escape(layer);
        assert(c.params(layer) =~= e.subrange(2, e.len() - 1));
        assert(d.params(layer) =~= e.subrange(2, e.len() - 1));
    }
    lemma_params_parts(c, d, layer);
    match (c, d) {
        (Color::Color256(m), Color::Color256(n)) => {
            lemma_same_index(m, n);
        },
        (Color::TrueColor(r1, g1, b1), Color::TrueColor(r2, g2, b2)) => {
            lemma_same_channels(r1, g1, b1, r2, g2, b2);
        },
        (Color::Color256(_), Color::TrueColor(_, _, _)) => {
            reveal_strlit(";5;");
            reveal_strlit(";2;");
            assert(trail(c)[1] == '5');
            assert(trail(d)[1] == '2');
        },
        (Color::TrueColor(_, _, _), Color::Color256(_)) => {
            reveal_strlit(";5;");
            reveal_strlit(";2;");
            assert(trail(c)[1] == '2');
            assert(trail(d)[1] == '5');
        },
        _ => {},
    }
}

} // verus!
