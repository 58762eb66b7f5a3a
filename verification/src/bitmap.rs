//! Bitmaps: the grid of RGBA pixels that a picture is decoded to, and the
//! decoding of a picture held in memory.

use vstd::prelude::*;
use vstd::arithmetic::div_mod::lemma_fundamental_div_mod_converse;
use image::{DynamicImage, GenericImageView, ImageError, ImageFormat};
use crate::Error;

verus! {

/// `image::DynamicImage`, a decoded picture in whatever pixel layout its
/// file had. Its pixels are read through the functions below.
#[verifier::external_type_specification]
#[verifier::external_body]
pub struct ExDynamicImage(image::DynamicImage);

/// `image::ImageError`, which says why a picture could not be decoded. It is
/// handed on unread.
#[verifier::external_type_specification]
#[verifier::external_body]
pub struct ExImageError(image::ImageError);

/// `image::ImageFormat`, the decoder's list of file formats.
#[verifier::external_type_specification]
pub struct ExImageFormat(image::ImageFormat);

/// The number of pixel columns of a decoded picture.
pub uninterp spec fn decoded_width(img: DynamicImage) -> u32;

/// The number of pixel rows of a decoded picture.
pub uninterp spec fn decoded_height(img: DynamicImage) -> u32;

/// The pixel in column `x` and row `y` of a decoded picture, as red, green,
/// blue and alpha of eight bits each.
pub uninterp spec fn decoded_pixel(img: DynamicImage, x: u32, y: u32) -> [u8; 4];

/// The file formats that can be decoded.
#[derive(Debug, Copy, Clone, Eq, PartialEq, Structural)]
pub enum Format {
    Bmp,
    Png,
    Jpeg,
}

impl Format {
    /// The decoder's name for the format.
    pub open spec fn decoder_format(self) -> ImageFormat {
        match self {
            Format::Bmp => ImageFormat::Bmp,
            Format::Png => ImageFormat::Png,
            Format::Jpeg => ImageFormat::Jpeg,
        }
    }
}

impl From<Format> for ImageFormat {
    fn from(format: Format) -> (r: ImageFormat) {
        match format {
            Format::Bmp => ImageFormat::Bmp,
            Format::Png => ImageFormat::Png,
            Format::Jpeg => ImageFormat::Jpeg,
        }
    }
}

impl vstd::std_specs::convert::FromSpecImpl<Format> for ImageFormat {
    open spec fn obeys_from_spec() -> bool {
        true
    }

    open spec fn from_spec(format: Format) -> ImageFormat {
        format.decoder_format()
    }
}

/// What a bitmap is: its size and its pixels, row after row from the top,
/// each row from the left.
pub ghost struct Grid {
    pub width: nat,
    pub height: nat,
    pub pixels: Seq<[u8; 4]>,
}

/// A grid of RGBA pixels. It holds as many pixels as its width and height
/// make.
pub struct Bitmap {
    width: u32,
    height: u32,
    pixels: Vec<[u8; 4]>,
}

impl View for Bitmap {
    type V = Grid;

    closed spec fn view(&self) -> Grid {
        Grid { width: self.width as nat, height: self.height as nat, pixels: self.pixels@ }
    }
}

impl Grid {
    /// The grid holds one pixel for each place.
    pub open spec fn well_formed(self) -> bool {
        self.pixels.len() == self.width * self.height
    }

    /// The pixels of row `y`, from the left.
    pub open spec fn row(self, y: int) -> Seq<[u8; 4]>
        recommends
            0 <= y < self.height,
    {
        self.pixels.subrange(y * self.width, (y + 1) * self.width)
    }

    /// The pixel in column `x` and row `y`.
    pub open spec fn at(self, x: int, y: int) -> [u8; 4]
        recommends
            0 <= x < self.width,
            0 <= y < self.height,
    {
        self.pixels[y * self.width + x]
    }
}

/// A place in a grid lies among its pixels, and so does the whole of its
/// row.
pub proof fn lemma_place_in_grid(x: int, y: int, width: int, height: int)
    requires
        0 <= x < width,
        0 <= y < height,
    ensures
        0 <= y * width,
        0 <= y * width + x < width * height,
        y * width + width == (y + 1) * width,
        (y + 1) * width <= width * height,
{
    assert(y * width + x < width * height && y * width >= 0 && y * width + width == (y + 1)
        * width && (y + 1) * width <= width * height) by (nonlinear_arith)
        requires
            0 <= x < width,
            0 <= y < height,
    ;
}

impl Bitmap {
    #[verifier::type_invariant]
    spec fn inv(self) -> bool {
        self.pixels@.len() == self.width as nat * self.height as nat
    }

    /// Makes a bitmap of the given size from its pixels in row-major order,
    /// if there are as many pixels as the size asks for.
    pub fn new(width: u32, height: u32, pixels: Vec<[u8; 4]>) -> (r: Option<Bitmap>)
        ensures
            match r {
                Some(b) => b@ == (Grid {
                    width: width as nat,
                    height: height as nat,
                    pixels: pixels@,
                }) && b@.well_formed(),
                None => pixels@.len() != width * height,
            },
    {
        assert(width * height <= 0xffff_ffff * 0xffff_ffff) by (nonlinear_arith)
            requires
                0 <= width <= 0xffff_ffff,
                0 <= height <= 0xffff_ffff,
        ;
        let places: u64 = (width as u64) * (height as u64);
        if pixels.len() as u64 == places {
            Some(Bitmap { width, height, pixels })
        } else {
            None
        }
    }

    /// The number of pixel columns.
    pub fn width(&self) -> (w: u32)
        ensures
            w == self@.width,
    {
        self.width
    }

    /// The number of pixel rows.
    pub fn height(&self) -> (h: u32)
        ensures
            h == self@.height,
    {
        self.height
    }

    /// The pixels, row after row.
    pub fn pixels(&self) -> (p: &Vec<[u8; 4]>)
        ensures
            p@ == self@.pixels,
            self@.well_formed(),
    {
        proof {
            use_type_invariant(self);
        }
        &self.pixels
    }

    /// The pixel in column `x` and row `y`, if the bitmap has such a place.
    pub fn pixel(&self, x: u32, y: u32) -> (p: Option<[u8; 4]>)
        ensures
            p == if x < self@.width && y < self@.height {
                Some(self@.at(x as int, y as int))
            } else {
                None
            },
    {
        proof {
            use_type_invariant(self);
        }
        if x < self.width && y < self.height {
            proof {
                lemma_place_in_grid(x as int, y as int, self.width as int, self.height as int);
            }
            let n = self.pixels.len();
            assert(y * self.width + x < n);
            let i = (y as usize) * (self.width as usize) + (x as usize);
            Some(self.pixels[i])
        } else {
            None
        }
    }

    /// Copies a decoded picture into a bitmap, pixel by pixel.
    pub fn from_decoded(img: &DynamicImage) -> (b: Bitmap)
        ensures
            b@ == grid_of(*img),
            b@.well_formed(),
            b@.width == decoded_width(*img),
            b@.height == decoded_height(*img),
            forall|x: int, y: int|
                0 <= x < b@.width && 0 <= y < b@.height ==> #[trigger] b@.at(x, y)
                    == decoded_pixel(*img, x as u32, y as u32),
    {
        let width = image_width(img);
        let height = image_height(img);
        let mut pixels: Vec<[u8; 4]> = Vec::new();
        let mut y: u32 = 0;
        assert(0 * width == 0) by (nonlinear_arith);
        while y < height
            invariant
                width == decoded_width(*img),
                height == decoded_height(*img),
                y <= height,
                pixels@.len() == y * width,
                row_major(pixels@, *img, width as int),
            decreases height - y,
        {
            let mut x: u32 = 0;
            while x < width
                invariant
                    width == decoded_width(*img),
                    height == decoded_height(*img),
                    y < height,
                    x <= width,
                    pixels@.len() == y * width + x,
                    row_major(pixels@, *img, width as int),
                decreases width - x,
            {
                let ghost before = pixels@;
                pixels.push(image_pixel(img, x, y));
                proof {
                    lemma_fundamental_div_mod_converse(
                        before.len() as int,
                        width as int,
                        y as int,
                        x as int,
                    );
                    assert forall|k: int| 0 <= k < pixels@.len() implies #[trigger] pixels@[k]
                        == decoded_pixel(*img, (k % (width as int)) as u32, (k / (width as int)) as u32) by {
                        if k < before.len() {
                            assert(pixels@[k] == before[k]);
                        }
                    }
                }
                x += 1;
            }
            proof {
                lemma_place_in_grid(0, y as int, width as int + 1, height as int + 1);
                assert(y * width + width == (y + 1) * width) by (nonlinear_arith);
            }
            y += 1;
        }
        assert(height * width == width * height) by (nonlinear_arith);
        let b = Bitmap { width, height, pixels };
        proof {
            assert(b@.pixels =~= grid_of(*img).pixels);
            assert forall|x: int, y: int| 0 <= x < b@.width && 0 <= y < b@.height implies #[trigger] b@.at(
                x,
                y,
            ) == decoded_pixel(*img, x as u32, y as u32) by {
                lemma_place_in_grid(x, y, width as int, height as int);
                lemma_fundamental_div_mod_converse(y * width + x, width as int, y, x);
            }
        }
        b
    }
}

/// The pixels are those of the decoded picture, row after row from the top,
/// each row from the left, as far as they go.
pub open spec fn row_major(pixels: Seq<[u8; 4]>, img: DynamicImage, width: int) -> bool {
    forall|k: int|
        0 <= k < pixels.len() ==> #[trigger] pixels[k] == decoded_pixel(
            img,
            (k % width) as u32,
            (k / width) as u32,
        )
}

/// The grid that a decoded picture holds: its size, and its pixels row after
/// row from the top, each row from the left.
pub open spec fn grid_of(img: DynamicImage) -> Grid {
    let width = decoded_width(img) as int;
    let height = decoded_height(img) as int;
    Grid {
        width: width as nat,
        height: height as nat,
        pixels: Seq::new(
            (width * height) as nat,
            |k: int| decoded_pixel(img, (k % width) as u32, (k / width) as u32),
        ),
    }
}

/// The grid of a decoded picture is well formed and holds at each place the
/// picture's pixel of that place.
pub proof fn lemma_grid_of_decoded(img: DynamicImage, x: int, y: int)
    requires
        0 <= x < decoded_width(img),
        0 <= y < decoded_height(img),
    ensures
        grid_of(img).well_formed(),
        grid_of(img).at(x, y) == decoded_pixel(img, x as u32, y as u32),
{
    let width = decoded_width(img) as int;
    let height = decoded_height(img) as int;
    lemma_place_in_grid(x, y, width, height);
    lemma_fundamental_div_mod_converse(y * width + x, width, y, x);
    lemma_grid_of_is_well_formed(img);
}

/// The grid of a decoded picture holds one pixel for each place.
pub proof fn lemma_grid_of_is_well_formed(img: DynamicImage)
    ensures
        grid_of(img).well_formed(),
{
    let width = decoded_width(img) as int;
    let height = decoded_height(img) as int;
    assert(0 <= width * height) by (nonlinear_arith)
        requires
            0 <= width,
            0 <= height,
    ;
}

/// What the decoder makes of bytes in a format: the decoded picture, or the
/// reason why they are no picture of that format.
pub uninterp spec fn decoding(bytes: Seq<u8>, format: ImageFormat) -> Result<
    DynamicImage,
    ImageError,
>;

/// `image::load_from_memory_with_format`: decodes a picture that is held in
/// memory in the given format, and in no other. The result depends on the
/// bytes and the format alone; it is only named here.
#[verifier::external_body]
pub(crate) fn decode(bytes: &[u8], format: ImageFormat) -> (r: Result<DynamicImage, ImageError>)
    ensures
        r == decoding(bytes@, format),
{
    image::load_from_memory_with_format(bytes, format)
}

/// `DynamicImage::width`: the number of pixel columns.
#[verifier::external_body]
fn image_width(img: &DynamicImage) -> (w: u32)
    ensures
        w == decoded_width(*img),
{
    img.width()
}

/// `DynamicImage::height`: the number of pixel rows.
#[verifier::external_body]
fn image_height(img: &DynamicImage) -> (h: u32)
    ensures
        h == decoded_height(*img),
{
    img.height()
}

/// `GenericImageView::get_pixel` of a `DynamicImage`: the pixel at a place
/// inside the picture, converted to eight-bit RGBA. Outside the picture the
/// call would panic.
#[verifier::external_body]
fn image_pixel(img: &DynamicImage, x: u32, y: u32) -> (p: [u8; 4])
    requires
        x < decoded_width(*img),
        y < decoded_height(*img),
    ensures
        p == decoded_pixel(*img, x, y),
{
    img.get_pixel(x, y).0
}

/// What becomes of a decoding: a decoded picture is copied into a bitmap, a
/// failure is handed on as this library's error.
pub fn bitmap_of(decoded: Result<DynamicImage, ImageError>) -> (r: Result<Bitmap, Error>)
    ensures
        match decoded {
            Ok(img) => r is Ok && r->Ok_0@ == grid_of(img) && r->Ok_0@.well_formed()
                && r->Ok_0@.width == decoded_width(img) && r->Ok_0@.height == decoded_height(img)
                && forall|x: int, y: int|
                0 <= x < decoded_width(img) && 0 <= y < decoded_height(img)
                    ==> #[trigger] r->Ok_0@.at(x, y) == decoded_pixel(img, x as u32, y as u32),
            Err(e) => r is Err && r->Err_0 == Error::Image(e),
        },
{
    match decoded {
        Ok(img) => Ok(Bitmap::from_decoded(&img)),
        Err(e) => Err(Error::Image(e)),
    }
}

/// Decodes a picture that is held in memory in the given format, and copies
/// it into a bitmap. Bytes that the decoder refuses give its error, handed
/// on as this library's.
pub fn load_from_bytes(bytes: &[u8], format: Format) -> (r: Result<Bitmap, Error>)
    ensures
        match decoding(bytes@, format.decoder_format()) {
            Ok(img) => r is Ok && r->Ok_0@ == grid_of(img) && r->Ok_0@.well_formed(),
            Err(e) => r is Err && r->Err_0 == Error::Image(e),
        },
{
    bitmap_of(decode(bytes, ImageFormat::from(format)))
}

} // verus!
