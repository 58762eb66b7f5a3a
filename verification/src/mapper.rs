//! Strategies that reduce an RGBA pixel to the colour depth of a terminal
//! and emit the foreground escape sequence of the colour they choose.

use vstd::prelude::*;
use crate::color::{lemma_escape_is_lossless, palette, Color, Layer};

verus! {

/// The brightness scalar of a pixel: a third of each channel, each third
/// rounded down on its own, added up. The sum never exceeds 255.
pub open spec fn luminance(pixel: [u8; 4]) -> nat {
    (pixel[0] / 3 + pixel[1] / 3 + pixel[2] / 3) as nat
}

/// Computes the brightness scalar of a pixel.
pub fn pixel_luminance(pixel: [u8; 4]) -> (l: u8)
    ensures
        l == luminance(pixel),
{
    pixel[0] / 3 + pixel[1] / 3 + pixel[2] / 3
}

/// The named colour at place `i` of the palette.
fn palette_color(i: u8) -> (c: Color)
    requires
        i < 16,
    ensures
        c == palette()[i as int],
        c.palette_index() == Some(i as nat),
{
    if i == 0 {
        Color::Black
    } else if i == 1 {
        Color::Red
    } else if i == 2 {
        Color::Green
    } else if i == 3 {
        Color::Yellow
    } else if i == 4 {
        Color::Blue
    } else if i == 5 {
        Color::Magenta
    } else if i == 6 {
        Color::Cyan
    } else if i == 7 {
        Color::White
    } else if i == 8 {
        Color::BrightBlack
    } else if i == 9 {
        Color::BrightRed
    } else if i == 10 {
        Color::BrightGreen
    } else if i == 11 {
        Color::BrightYellow
    } else if i == 12 {
        Color::BrightBlue
    } else if i == 13 {
        Color::BrightMagenta
    } else if i == 14 {
        Color::BrightCyan
    } else {
        Color::BrightWhite
    }
}

/// A way of turning a pixel into the text that colours it.
pub trait ColorMapper: Sized {
    /// The text that this mapper emits for `pixel`, or `None` where it has
    /// none to give.
    spec fn mapped(&self, pixel: [u8; 4]) -> Option<Seq<char>>;

    /// Appends to `f` what the mapper emits for `color`. Where the mapper
    /// has nothing to give it fails and leaves `f` as it was.
    fn map_fmt(&self, color: [u8; 4], f: &mut String) -> (r: Result<(), std::fmt::Error>)
        ensures
            match self.mapped(color) {
                Some(text) => r is Ok && final(f)@ == old(f)@ + text,
                None => r is Err && final(f)@ == old(f)@,
            },
    ;

    /// What the mapper emits for `color`, as a string of its own.
    fn map(&self, color: [u8; 4]) -> (s: String)
        requires
            self.mapped(color) is Some,
        ensures
            Some(s@) == self.mapped(color),
    {
        let mut buf = String::new();
        let r = self.map_fmt(color, &mut buf);
        assert(buf@ =~= self.mapped(color).unwrap());
        buf
    }
}

/// Emits nothing: for output that takes no colour.
pub struct NoColorMapper;

/// Emits the pixel's own colour, 24 bits deep.
pub struct TrueColorMapper;

/// Emits the palette entry whose index is the pixel's brightness.
pub struct Color256Mapper;

/// Emits one of the sixteen named colours, chosen by the pixel's brightness
/// in steps of sixteen.
pub struct Color16Mapper;

impl ColorMapper for NoColorMapper {
    open spec fn mapped(&self, pixel: [u8; 4]) -> Option<Seq<char>> {
        Some(Seq::empty())
    }

    fn map_fmt(&self, color: [u8; 4], f: &mut String) -> (r: Result<(), std::fmt::Error>) {
        assert(f@ =~= old(f)@ + Seq::<char>::empty());
        Ok(())
    }
}

impl ColorMapper for TrueColorMapper {
    open spec fn mapped(&self, pixel: [u8; 4]) -> Option<Seq<char>> {
        Some(Color::TrueColor(pixel[0], pixel[1], pixel[2]).fg())
    }

    fn map_fmt(&self, color: [u8; 4], f: &mut String) -> (r: Result<(), std::fmt::Error>) {
        Color::TrueColor(color[0], color[1], color[2]).fg_fmt(f)
    }
}

impl ColorMapper for Color256Mapper {
    open spec fn mapped(&self, pixel: [u8; 4]) -> Option<Seq<char>> {
        Some(Color::Color256(luminance(pixel) as u8).fg())
    }

    fn map_fmt(&self, color: [u8; 4], f: &mut String) -> (r: Result<(), std::fmt::Error>) {
        Color::Color256(pixel_luminance(color)).fg_fmt(f)
    }
}

impl ColorMapper for Color16Mapper {
    open spec fn mapped(&self, pixel: [u8; 4]) -> Option<Seq<char>> {
        Some(palette()[luminance(pixel) as int / 16].fg())
    }

    fn map_fmt(&self, color: [u8; 4], f: &mut String) -> (r: Result<(), std::fmt::Error>) {
        palette_color(pixel_luminance(color) / 16).fg_fmt(f)
    }
}

/// The mapper for output without colour emits nothing, whatever the pixel.
pub proof fn lemma_no_color_is_empty(pixel: [u8; 4])
    ensures
        NoColorMapper.mapped(pixel) == Some(Seq::<char>::empty()),
{
}

/// The 24-bit mapper emits the foreground sequence of exactly the pixel's
/// red, green and blue. It loses nothing of them and takes nothing from
/// alpha: two pixels are mapped alike exactly if they agree in the three
/// channels.
pub proof fn lemma_true_color_is_lossless(p: [u8; 4], q: [u8; 4])
    ensures
        TrueColorMapper.mapped(p) == Some(Color::TrueColor(p[0], p[1], p[2]).fg()),
        TrueColorMapper.mapped(p) == TrueColorMapper.mapped(q) <==> p[0] == q[0] && p[1] == q[1]
            && p[2] == q[2],
{
    if TrueColorMapper.mapped(p) == TrueColorMapper.mapped(q) {
        lemma_escape_is_lossless(
            Color::TrueColor(p[0], p[1], p[2]),
            Color::TrueColor(q[0], q[1], q[2]),
            Layer::Foreground,
        );
    }
}

/// The brightness of a pixel fits a palette index, and a sixteenth of it is
/// a place in the palette of named colours: the two quantizers always have
/// a colour to give, the palette entry at the brightness and the named
/// colour at a sixteenth of it.
pub proof fn lemma_quantizers_are_total(p: [u8; 4])
    ensures
        luminance(p) <= 255,
        luminance(p) / 16 < 16,
        Color256Mapper.mapped(p) == Some(Color::Color256(luminance(p) as u8).fg()),
        Color16Mapper.mapped(p) == Some(palette()[(luminance(p) / 16) as int].fg()),
        palette()[(luminance(p) / 16) as int].palette_index() == Some(luminance(p) / 16),
{
}

/// None of the four mappers looks at alpha: pixels that agree in red, green
/// and blue are mapped alike.
pub proof fn lemma_alpha_is_ignored(p: [u8; 4], q: [u8; 4])
    requires
        p[0] == q[0],
        p[1] == q[1],
        p[2] == q[2],
    ensures
        NoColorMapper.mapped(p) == NoColorMapper.mapped(q),
        TrueColorMapper.mapped(p) == TrueColorMapper.mapped(q),
        Color256Mapper.mapped(p) == Color256Mapper.mapped(q),
        Color16Mapper.mapped(p) == Color16Mapper.mapped(q),
{
}

/// A mapper gives the same text for the same pixel, call after call: any two
/// results of `map` for one mapper and one pixel are equal.
pub proof fn lemma_map_is_a_function<M: ColorMapper>(m: M, pixel: [u8; 4], s1: String, s2: String)
    requires
        m.mapped(pixel) is Some,
        call_ensures(M::map, (&m, pixel), s1),
        call_ensures(M::map, (&m, pixel), s2),
    ensures
        s1@ == s2@,
{
}

} // verus!
