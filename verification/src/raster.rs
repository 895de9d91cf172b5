//! Raster conversions: decoding eight-bit grayscale pixels into fixed-point
//! samples and back, and the smooth resampling of a pixel buffer done by
//! the raster crate.

use vstd::prelude::*;

use crate::grid::DataGrid;
use crate::{PIXEL_UNIT, SCALE};

verus! {

broadcast use vstd::std_specs::vec::axiom_spec_len;

/// What decoding one eight-bit pixel is: `pixel / 256` in fixed point. The
/// divisor is 256, not 255, so a decoded sample stays strictly below one.
pub open spec fn decode_pixel_spec(p: u8) -> int {
    (p as int) * (PIXEL_UNIT as int)
}

/// What decoding a whole pixel buffer is.
pub open spec fn decode_cells_spec(pixels: Seq<u8>) -> Seq<i64> {
    Seq::new(pixels.len(), |i: int| decode_pixel_spec(pixels[i]) as i64)
}

/// What encoding one sample back to an eight-bit pixel is: `value * 256`
/// truncated to an integer, saturated into the eight-bit range (negative
/// samples give 0, samples of one or more give 255).
pub open spec fn encode_pixel_spec(v: i64) -> u8 {
    if v <= 0 {
        0
    } else if (v as int) * 256 / (SCALE as int) > 255 {
        255
    } else {
        ((v as int) * 256 / (SCALE as int)) as u8
    }
}

/// Decode a single-channel eight-bit image, given as its dimensions and
/// row-major pixel buffer, into a grid of fixed-point samples in `[0, 1)`.
pub fn from_image(width: u32, height: u32, pixels: &Vec<u8>) -> (g: DataGrid)
    requires
        pixels@.len() == width * height,
    ensures
        g.wf(),
        g.width == width,
        g.height == height,
        g.values@ == decode_cells_spec(pixels@),
        g.all_within(0, (SCALE - PIXEL_UNIT) as int),
{
    let n: usize = pixels.len();
    let mut values: Vec<i64> = Vec::new();
    let mut i: usize = 0;
    while i < n
        invariant
            i <= n,
            n == pixels@.len(),
            values@.len() == i,
            forall|j: int| 0 <= j < i ==> #[trigger] values@[j] == decode_pixel_spec(pixels@[j]),
            forall|j: int|
                0 <= j < i ==> 0 <= #[trigger] values@[j] <= SCALE - PIXEL_UNIT,
        decreases n - i,
    {
        let p: u8 = pixels[i];
        values.push((p as i64) * PIXEL_UNIT);
        i = i + 1;
    }
    let g = DataGrid { width: width as usize, height: height as usize, values };
    proof {
        assert(g.values@ =~= decode_cells_spec(pixels@));
    }
    g
}

/// Encode a grid back into a row-major eight-bit pixel buffer: each sample
/// is scaled by 256 and truncated, the inverse of decoding only up to
/// eight-bit quantization.
pub fn to_image(grid: &DataGrid) -> (r: Vec<u8>)
    requires
        grid.wf(),
    ensures
        r@.len() == grid.values@.len(),
        forall|i: int|
            0 <= i < r@.len() ==> #[trigger] r@[i] == encode_pixel_spec(grid.values@[i]),
{
    let n: usize = grid.values.len();
    let mut pixels: Vec<u8> = Vec::new();
    let mut i: usize = 0;
    while i < n
        invariant
            i <= n,
            n == grid.values@.len(),
            pixels@.len() == i,
            forall|j: int|
                0 <= j < i ==> #[trigger] pixels@[j] == encode_pixel_spec(grid.values@[j]),
        decreases n - i,
    {
        let v: i64 = grid.values[i];
        let p: u8 = if v <= 0 {
            0u8
        } else {
            proof {
                crate::fixed::lemma_div_bounds(
                    (v as int) * 256,
                    SCALE as int,
                    0,
                    v as int,
                );
                assert((v as int) * 256 >= 0);
                assert((v as int) * 256 <= (v as int) * (SCALE as int)) by (nonlinear_arith)
                    requires
                        v as int > 0,
                        256 <= SCALE as int,
                ;
                assert(0 * (SCALE as int) <= (v as int) * 256);
            }
            let q: u128 = ((v as u128) * 256) / (SCALE as u128);
            if q > 255 {
                255u8
            } else {
                q as u8
            }
        };
        pixels.push(p);
        i = i + 1;
    }
    pixels
}

/// Decoding a pixel and encoding the result gives the pixel back exactly:
/// the eight-bit quantization loses nothing in this direction (encoding an
/// arbitrary sample and decoding it, by contrast, rounds down to the
/// nearest pixel step).
pub proof fn lemma_decode_encode_roundtrip(p: u8)
    ensures
        encode_pixel_spec(decode_pixel_spec(p) as i64) == p,
{
    let v = decode_pixel_spec(p) as i64;
    assert(v == (p as int) * (PIXEL_UNIT as int));
    if p == 0 {
    } else {
        assert((v as int) * 256 == (p as int) * (SCALE as int));
        vstd::arithmetic::mul::lemma_mul_is_commutative(p as int, SCALE as int);
        vstd::arithmetic::div_mod::lemma_div_multiples_vanish(p as int, SCALE as int);
        assert((v as int) * 256 / (SCALE as int) == p as int);
    }
}

/// What the raster crate's Catmull-Rom resampling of a grayscale buffer to
/// new dimensions returns. A fixed function of the pixel data and the four
/// dimensions alone.
pub uninterp spec fn resized_of(
    pixels: Seq<u8>,
    width: u32,
    height: u32,
    new_width: u32,
    new_height: u32,
) -> Seq<u8>;

/// Relies on `image::imageops::resize` with `FilterType::CatmullRom`: a
/// smooth cubic resampling, a pure function of the pixel buffer and the
/// dimensions; the returned buffer has the requested dimensions.
#[verifier::external_body]
pub fn resize_gray(pixels: &Vec<u8>, width: u32, height: u32, new_width: u32, new_height: u32) -> (r: Vec<u8>)
    requires
        pixels@.len() == width * height,
        width > 0,
        height > 0,
        new_width > 0,
        new_height > 0,
    ensures
        r@.len() == new_width * new_height,
        r@ == resized_of(pixels@, width, height, new_width, new_height),
{
    let img = image::GrayImage::from_raw(width, height, pixels.clone())
        .expect("buffer length matches the dimensions");
    let out = image::imageops::resize(
        &img,
        new_width,
        new_height,
        image::imageops::FilterType::CatmullRom,
    );
    out.into_raw()
}

} // verus!
