//! Decoding an encoded picture and scaling it to the width of the text rendering.
use vstd::prelude::*;
use image::{DynamicImage, ImageError};

verus! {

#[verifier::external_type_specification]
#[verifier::external_body]
pub struct ExDynamicImage(DynamicImage);

#[verifier::external_type_specification]
#[verifier::external_body]
pub struct ExImageError(ImageError);

/// Why a picture could not be prepared for rendering.
#[derive(Clone, Copy, Debug, PartialEq, Eq, Structural)]
pub enum RenderError {
    /// The character width was zero, too large to double, or gives a scaled picture
    /// too large to hold.
    InvalidArgument,
    /// The bytes are not a picture in a supported format.
    DecodeError,
}

/// An RGB raster, three bytes per pixel, stored row by row from the top-left corner.
pub struct PixelGrid {
    width: usize,
    height: usize,
    rgb: Vec<u8>,
}

impl PixelGrid {
    pub closed spec fn spec_width(&self) -> nat {
        self.width as nat
    }

    pub closed spec fn spec_height(&self) -> nat {
        self.height as nat
    }

    /// The samples, three per pixel, row by row.
    pub closed spec fn spec_rgb(&self) -> Seq<u8> {
        self.rgb@
    }

    /// The samples are exactly three for each pixel of the `width` x `height` raster.
    pub open spec fn wf(&self) -> bool {
        3 * self.spec_width() * self.spec_height() == self.spec_rgb().len()
    }

    /// The red, green and blue samples of pixel (`x`, `y`).
    pub open spec fn spec_pixel(&self, x: int, y: int) -> (u8, u8, u8) {
        let i = 3 * (y * self.spec_width() + x);
        (self.spec_rgb()[i], self.spec_rgb()[i + 1], self.spec_rgb()[i + 2])
    }

    /// A `width` x `height` raster from its samples, or `None` where `rgb` does not
    /// hold exactly three samples for each pixel.
    pub fn from_rgb(width: usize, height: usize, rgb: Vec<u8>) -> (r: Option<PixelGrid>)
        ensures
            r.is_some() <==> rgb@.len() == 3 * width * height,
            r.is_some() ==> ({
                let g = r.unwrap();
                &&& g.wf()
                &&& g.spec_width() == width
                &&& g.spec_height() == height
                &&& g.spec_rgb() == rgb@
            }),
    {
        let n = rgb.len();
        match width.checked_mul(height) {
            Some(pixels) => match pixels.checked_mul(3) {
                Some(samples) => {
                    assert(samples == 3 * width * height) by (nonlinear_arith)
                        requires
                            samples == pixels * 3,
                            pixels == width * height,
                    ;
                    if samples == n {
                        return Some(PixelGrid { width, height, rgb });
                    }
                },
                None => {
                    assert(3 * width * height == pixels * 3) by (nonlinear_arith)
                        requires
                            pixels == width * height,
                    ;
                },
            },
            None => {
                assert(3 * width * height >= width * height) by (nonlinear_arith);
            },
        }
        None
    }

    pub fn width(&self) -> (r: usize)
        ensures
            r == self.spec_width(),
    {
        self.width
    }

    pub fn height(&self) -> (r: usize)
        ensures
            r == self.spec_height(),
    {
        self.height
    }

    /// The red, green and blue samples of pixel (`x`, `y`).
    pub fn pixel(&self, x: usize, y: usize) -> (r: (u8, u8, u8))
        requires
            self.wf(),
            x < self.spec_width(),
            y < self.spec_height(),
        ensures
            r == self.spec_pixel(x as int, y as int),
    {
        let n = self.rgb.len();
        proof {
            let (w, h) = (self.width as int, self.height as int);
            assert(y * w + x < w * h) by (nonlinear_arith)
                requires
                    0 <= x < w,
                    0 <= y < h,
            ;
            assert(0 <= y * w) by (nonlinear_arith)
                requires
                    0 <= y,
                    0 <= w,
            ;
            assert(3 * (w * h) == 3 * w * h) by (nonlinear_arith);
        }
        let i = 3 * (y * self.width + x);
        (self.rgb[i], self.rgb[i + 1], self.rgb[i + 2])
    }
}

/// `h0 * nw / w0` rounded to the nearest integer, halves up: the height that keeps the
/// aspect ratio of a `w0` x `h0` picture scaled to `nw` pixels across (zero for a
/// picture without columns).
pub open spec fn scaled_height(w0: int, h0: int, nw: int) -> int {
    if w0 == 0 {
        0
    } else {
        (2 * h0 * nw + w0) / (2 * w0)
    }
}

/// Whether an 8-bit raster of `w` x `h` pixels with up to four channels fits in memory
/// addressed by `usize`.
pub open spec fn raster_fits(w: int, h: int) -> bool {
    h <= u32::MAX && 4 * w * h <= usize::MAX
}

/// The size, in pixels, that a `w0` x `h0` picture is scaled to for a rendering
/// `char_width` glyphs across: `2 * char_width` columns (each glyph covers two) and the
/// height that keeps the aspect ratio. `InvalidArgument` where the width is zero or
/// too large to double, or where the scaled raster would not fit.
pub fn scaled_size(w0: u32, h0: u32, char_width: u32) -> (r: Result<(u32, u32), RenderError>)
    ensures
        (char_width == 0 || char_width > u32::MAX / 2) ==> r == Err::<(u32, u32), RenderError>(
            RenderError::InvalidArgument,
        ),
        0 < char_width <= u32::MAX / 2 ==> ({
            let nw = 2 * char_width;
            let nh = scaled_height(w0 as int, h0 as int, nw);
            &&& raster_fits(nw, nh) ==> r == Ok::<(u32, u32), RenderError>((nw as u32, nh as u32))
            &&& !raster_fits(nw, nh) ==> r == Err::<(u32, u32), RenderError>(
                RenderError::InvalidArgument,
            )
        }),
{
    if char_width == 0 || char_width > u32::MAX / 2 {
        return Err(RenderError::InvalidArgument);
    }
    let nw: u32 = char_width * 2;
    let nh: u128 = if w0 == 0 {
        0
    } else {
        proof {
            assert(2 * (h0 as int) * (nw as int) <= 2 * 0xffff_ffff * 0xffff_ffff) by (nonlinear_arith)
                requires
                    h0 <= 0xffff_ffff,
                    nw <= 0xffff_ffff,
            ;
        }
        (2 * (h0 as u128) * (nw as u128) + (w0 as u128)) / (2 * (w0 as u128))
    };
    if nh > u32::MAX as u128 {
        return Err(RenderError::InvalidArgument);
    }
    let nh = nh as u32;
    proof {
        assert(4 * (nw as int) * (nh as int) <= 4 * 0xffff_ffff * 0xffff_ffff) by (nonlinear_arith)
            requires
                nh <= 0xffff_ffff,
                nw <= 0xffff_ffff,
        ;
    }
    let samples: u128 = 4 * (nw as u128) * (nh as u128);
    if samples > usize::MAX as u128 {
        return Err(RenderError::InvalidArgument);
    }
    Ok((nw, nh))
}

/// Relies on image::load_from_memory: guesses the format from the bytes and decodes
/// them. Whether it succeeds also depends on the format hooks registered in the
/// process, so nothing is stated of the outcome.
#[verifier::external_body]
fn decode(bytes: &[u8]) -> (r: Result<DynamicImage, ImageError>) {
    image::load_from_memory(bytes)
}

/// Relies on DynamicImage::width and DynamicImage::height: the picture's size in pixels.
#[verifier::external_body]
fn image_size(img: &DynamicImage) -> (r: (u32, u32)) {
    (img.width(), img.height())
}

/// Relies on DynamicImage::resize_exact with the Lanczos3 filter, which gives a picture
/// of exactly `nwidth` x `nheight` pixels (panicking only where its buffer length
/// overflows `usize`), then on DynamicImage::to_rgb8 and ImageBuffer::into_raw, whose
/// buffer for that new picture holds exactly three samples per pixel, row by row.
#[verifier::external_body]
fn resize_to_rgb(img: &DynamicImage, nwidth: u32, nheight: u32) -> (r: PixelGrid)
    requires
        raster_fits(nwidth as int, nheight as int),
    ensures
        r.wf(),
        r.spec_width() == nwidth,
        r.spec_height() == nheight,
{
    let buf = img.resize_exact(nwidth, nheight, image::imageops::FilterType::Lanczos3).to_rgb8();
    let (w, h) = buf.dimensions();
    PixelGrid { width: w as usize, height: h as usize, rgb: buf.into_raw() }
}

/// Decodes `bytes` and scales the picture to `2 * char_width` pixels across (each
/// glyph covers two pixel columns), with the height that keeps the aspect ratio
/// (see `scaled_size`).
pub fn load(bytes: &[u8], char_width: u32) -> (r: Result<PixelGrid, RenderError>)
    ensures
        (char_width == 0 || char_width > u32::MAX / 2) ==> r == Err::<PixelGrid, RenderError>(
            RenderError::InvalidArgument,
        ),
        r == Err::<PixelGrid, RenderError>(RenderError::DecodeError) ==> 0 < char_width
            <= u32::MAX / 2,
        r == Err::<PixelGrid, RenderError>(RenderError::InvalidArgument) ==> (char_width == 0
            || char_width > u32::MAX / 2 || exists|w0: u32, h0: u32|
            !raster_fits(2 * char_width, #[trigger] scaled_height(w0 as int, h0 as int, 2 * char_width))),
        r.is_ok() ==> ({
            let g = r.unwrap();
            &&& g.wf()
            &&& g.spec_width() == 2 * char_width
            &&& exists|w0: u32, h0: u32|
                g.spec_height() == #[trigger] scaled_height(w0 as int, h0 as int, 2 * char_width)
                    && raster_fits(g.spec_width() as int, g.spec_height() as int)
        }),
{
    if char_width == 0 || char_width > u32::MAX / 2 {
        return Err(RenderError::InvalidArgument);
    }
    let img = match decode(bytes) {
        Ok(img) => img,
        Err(_) => return Err(RenderError::DecodeError),
    };
    let (w0, h0) = image_size(&img);
    match scaled_size(w0, h0, char_width) {
        Ok((nw, nh)) => {
            let g = resize_to_rgb(&img, nw, nh);
            assert(g.spec_height() == scaled_height(w0 as int, h0 as int, 2 * char_width));
            Ok(g)
        },
        Err(e) => {
            assert(!raster_fits(2 * char_width, scaled_height(w0 as int, h0 as int, 2 * char_width)));
            Err(e)
        },
    }
}

} // verus!
