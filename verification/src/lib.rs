//! Terminal colours for rendering bitmaps as text: a closed colour model with
//! its ANSI escape encoding and textual form, strategies that reduce an RGBA
//! pixel to the colour depth of a terminal, and the text that shows a bitmap
//! on a terminal.

use vstd::prelude::*;
use crate::color::Color;
use crate::bitmap::{
    bitmap_of, decode, decoding, grid_of, lemma_place_in_grid, Bitmap, Format, Grid,
};
use image::{DynamicImage, ImageError, ImageFormat};
use crate::mapper::{ColorMapper, TrueColorMapper};

pub mod bitmap;
pub mod color;
pub mod mapper;
pub mod numeral;
pub mod text;

verus! {

/// What can go wrong in this library.
#[derive(Debug)]
pub enum Error {
    /// A picture could not be decoded.
    Image(image::ImageError),
}

/// The text that shows one pixel: two blanks for a fully transparent pixel,
/// else two `#` in the pixel's own colour.
pub open spec fn cell(pixel: [u8; 4]) -> Seq<char> {
    if pixel[3] == 0 {
        "  "@
    } else {
        Color::TrueColor(pixel[0], pixel[1], pixel[2]).fg() + "##"@
    }
}

/// The text that shows pixels side by side.
pub open spec fn cells(pixels: Seq<[u8; 4]>) -> Seq<char>
    decreases pixels.len(),
{
    if pixels.len() == 0 {
        Seq::empty()
    } else {
        cells(pixels.drop_last()) + cell(pixels.last())
    }
}

/// The text that shows the first `n` rows of a grid, each on a line of its
/// own. No line feed follows the last of them.
pub open spec fn rows(grid: Grid, n: nat) -> Seq<char>
    decreases n,
{
    if n == 0 {
        Seq::empty()
    } else if n == 1 {
        cells(grid.row(0))
    } else {
        rows(grid, (n - 1) as nat) + "\n"@ + cells(grid.row(n - 1))
    }
}

/// The text that shows a grid: its rows from the top, one below the other.
/// A grid without columns has nothing to show. No colour is reset at the
/// end.
pub open spec fn picture(grid: Grid) -> Seq<char> {
    if grid.width == 0 {
        Seq::empty()
    } else {
        rows(grid, grid.height)
    }
}

/// Writes a bitmap as text for a terminal that shows 24-bit colour.
pub fn render_bitmap(bitmap: &Bitmap) -> (s: String)
    ensures
        s@ == picture(bitmap@),
{
    let pixels = bitmap.pixels();
    let width = bitmap.width();
    let height = bitmap.height();
    let mapper = TrueColorMapper;
    let mut out = String::new();
    if width == 0 {
        return out;
    }
    let ghost grid = bitmap@;
    let count = pixels.len();
    let mut i: usize = 0;
    let mut y: u32 = 0;
    assert(0 * width == 0) by (nonlinear_arith);
    while y < height
        invariant
            grid == bitmap@,
            grid.well_formed(),
            pixels@ == grid.pixels,
            count == pixels@.len(),
            width == grid.width,
            height == grid.height,
            0 < width,
            y <= height,
            i == y * width,
            out@ == rows(grid, y as nat),
        decreases height - y,
    {
        if y > 0 {
            out.append("\n");
        }
        let ghost start = out@;
        let ghost from = i as int;
        let mut x: u32 = 0;
        proof {
            lemma_place_in_grid(0, y as int, width as int, height as int);
        }
        assert(pixels@.subrange(from, from) =~= Seq::<[u8; 4]>::empty());
        while x < width
            invariant
                grid.well_formed(),
                pixels@ == grid.pixels,
                count == pixels@.len(),
                width == grid.width,
                height == grid.height,
                y < height,
                x <= width,
                from == y * width,
                0 <= from,
                from + width <= pixels@.len(),
                i == from + x,
                out@ == start + cells(pixels@.subrange(from, from + x)),
            decreases width - x,
        {
            let pixel = pixels[i];
            let ghost before = out@;
            if pixel[3] == 0 {
                out.append("  ");
            } else {
                let _ = mapper.map_fmt(pixel, &mut out);
                out.append("##");
            }
            proof {
                let seen = pixels@.subrange(from, from + x + 1);
                assert(seen.drop_last() =~= pixels@.subrange(from, from + x));
                assert(seen.last() == pixel);
                assert(out@ =~= before + cell(pixel));
                assert(out@ =~= start + cells(seen));
            }
            i += 1;
            x += 1;
        }
        proof {
            assert(pixels@.subrange(from, from + width) == grid.row(y as int));
            if y == 0 {
                assert(out@ =~= cells(grid.row(0)));
            } else {
                assert(out@ =~= rows(grid, y as nat) + "\n"@ + cells(grid.row(y as int)));
            }
        }
        y += 1;
    }
    out
}

/// What becomes of a decoding: a decoded picture is written as text for a
/// terminal that shows 24-bit colour, a failure is handed on as this
/// library's error.
pub fn render_decoded(decoded: Result<DynamicImage, ImageError>) -> (r: Result<String, Error>)
    ensures
        match decoded {
            Ok(img) => r is Ok && r->Ok_0@ == picture(grid_of(img)),
            Err(e) => r is Err && r->Err_0 == Error::Image(e),
        },
{
    match bitmap_of(decoded) {
        Ok(bitmap) => Ok(render_bitmap(&bitmap)),
        Err(e) => Err(e),
    }
}

/// Decodes a picture held in memory in the given format and writes it as
/// text for a terminal that shows 24-bit colour. Bytes that the decoder
/// refuses give its error, handed on as this library's, and no text.
pub fn render(image: &[u8], format: Format) -> (r: Result<String, Error>)
    ensures
        match decoding(image@, format.decoder_format()) {
            Ok(img) => r is Ok && r->Ok_0@ == picture(grid_of(img)),
            Err(e) => r is Err && r->Err_0 == Error::Image(e),
        },
{
    render_decoded(decode(image, ImageFormat::from(format)))
}

} // verus!
