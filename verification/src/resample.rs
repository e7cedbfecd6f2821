//! Scaling pictures with the image crate.

use image::imageops::FilterType;
use vstd::prelude::*;

verus! {

/// Whether single-precision positions tell the pixels of a side apart when it is scaled
/// from one length to another. They do where the shorter side has less than 2^22 pixels, and
/// where neither has more than 2^23.
pub open spec fn side_scales(length: int, new_length: int) -> bool {
    length <= 0x3f_ffff || new_length <= 0x3f_ffff || (length <= 0x80_0000 && new_length
        <= 0x80_0000)
}

/// The sizes that a picture can be scaled from and to: no side is empty, the sides can be
/// scaled unless the size stays, and the pictures, of sixteen bytes per pixel in between, and
/// the weights of a column can be allocated.
pub open spec fn can_scale(width: int, height: int, new_width: int, new_height: int) -> bool {
    &&& 1 <= width <= u32::MAX
    &&& 1 <= height <= u32::MAX
    &&& 1 <= new_width <= u32::MAX
    &&& 1 <= new_height <= u32::MAX
    &&& (width == new_width && height == new_height) || (side_scales(width, new_width)
        && side_scales(height, new_height))
    &&& width * new_height * 16 <= isize::MAX
    &&& new_width * new_height * 4 <= isize::MAX
    &&& width * height * 4 <= isize::MAX
    &&& height * 8 <= isize::MAX
}

/// An RGB picture scaled to another size.
pub uninterp spec fn scaled_rgb(
    src: Seq<u8>,
    width: int,
    height: int,
    new_width: int,
    new_height: int,
) -> Seq<u8>;

/// An RGBA picture scaled to another size.
pub uninterp spec fn scaled_rgba(
    src: Seq<u8>,
    width: int,
    height: int,
    new_width: int,
    new_height: int,
) -> Seq<u8>;

/// `RgbImage::from_raw`, then `imageops::resize` with the triangle filter: the picture at
/// its new size, three bytes for each pixel, as a function of the bytes and the sizes; a
/// copy where the size stays. There is none where the bytes are too few for the old size.
#[verifier::external_body]
fn resize_rgb(
    src: Vec<u8>,
    width: u32,
    height: u32,
    new_width: u32,
    new_height: u32,
) -> (r: Option<Vec<u8>>)
    requires
        can_scale(width as int, height as int, new_width as int, new_height as int),
    ensures
        match r {
            Some(v) => {
                &&& src@.len() >= width * height * 3
                &&& v@.len() == new_width * new_height * 3
                &&& v@ == scaled_rgb(
                    src@,
                    width as int,
                    height as int,
                    new_width as int,
                    new_height as int,
                )
                &&& new_width == width && new_height == height ==> v@ == src@.take(
                    width * height * 3,
                )
            },
            None => src@.len() < width * height * 3,
        },
{
    let source = image::RgbImage::from_raw(width, height, src)?;
    Some(image::imageops::resize(&source, new_width, new_height, FilterType::Triangle).into_raw())
}

/// `ImageBuffer::from_raw`, then `imageops::resize` with the triangle filter: as above, with
/// four bytes for each pixel.
#[verifier::external_body]
pub(crate) fn resize_rgba(
    src: &Vec<u8>,
    width: u32,
    height: u32,
    new_width: u32,
    new_height: u32,
) -> (r: Option<Vec<u8>>)
    requires
        can_scale(width as int, height as int, new_width as int, new_height as int),
    ensures
        match r {
            Some(v) => {
                &&& src@.len() >= width * height * 4
                &&& v@.len() == new_width * new_height * 4
                &&& v@ == scaled_rgba(
                    src@,
                    width as int,
                    height as int,
                    new_width as int,
                    new_height as int,
                )
                &&& new_width == width && new_height == height ==> v@ == src@.take(
                    width * height * 4,
                )
            },
            None => src@.len() < width * height * 4,
        },
{
    let source = image::ImageBuffer::<image::Rgba<u8>, &[u8]>::from_raw(width, height, src)?;
    Some(image::imageops::resize(&source, new_width, new_height, FilterType::Triangle).into_raw())
}

fn does_side_scale(length: usize, new_length: usize) -> (r: bool)
    ensures
        r == side_scales(length as int, new_length as int),
{
    length <= 0x3f_ffff || new_length <= 0x3f_ffff || (length <= 0x80_0000 && new_length
        <= 0x80_0000)
}

fn is_side(length: usize) -> (r: bool)
    ensures
        r == (1 <= length <= u32::MAX),
{
    length >= 1 && length as u64 <= u32::MAX as u64
}

/// Whether a product of two sides, times a few bytes, can be allocated.
fn fits_in_memory(a: usize, b: usize, bytes: usize) -> (r: bool)
    requires
        a <= u32::MAX,
        b <= u32::MAX,
        bytes <= 16,
    ensures
        r == (a * b * bytes <= isize::MAX),
{
    proof {
        let (x, y, k) = (a as int, b as int, bytes as int);
        assert(0 <= x * y <= 0xffff_ffff * 0xffff_ffff) by (nonlinear_arith)
            requires
                0 <= x <= 0xffff_ffff,
                0 <= y <= 0xffff_ffff,
        ;
        assert(0 <= (x * y) * k <= 0xffff_ffff * 0xffff_ffff * 16) by (nonlinear_arith)
            requires
                0 <= x * y <= 0xffff_ffff * 0xffff_ffff,
                0 <= k <= 16,
        ;
    }
    a as u128 * b as u128 * bytes as u128 <= isize::MAX as u128
}

/// Checks whether a picture can be scaled.
pub fn sizes_can_scale(width: usize, height: usize, new_width: usize, new_height: usize) -> (r: bool)
    ensures
        r == can_scale(width as int, height as int, new_width as int, new_height as int),
{
    is_side(width) && is_side(height) && is_side(new_width) && is_side(new_height) && ((width
        == new_width && height == new_height) || (does_side_scale(width, new_width)
        && does_side_scale(height, new_height))) && fits_in_memory(width, new_height, 16) && fits_in_memory(new_width, new_height, 4) && fits_in_memory(width, height, 4)
        && fits_in_memory(height, 1, 8)
}

/// Scales an RGB picture. There is no result where the bytes are too few.
pub fn scale_rgb(
    src: Vec<u8>,
    width: usize,
    height: usize,
    new_width: usize,
    new_height: usize,
) -> (r: Option<Vec<u8>>)
    requires
        can_scale(width as int, height as int, new_width as int, new_height as int),
    ensures
        match r {
            Some(v) => src@.len() >= width * height * 3 && v@.len() == new_width * new_height * 3
                && v@ == scaled_rgb(
                src@,
                width as int,
                height as int,
                new_width as int,
                new_height as int,
            ),
            None => src@.len() < width * height * 3,
        },
        src@.len() == width * height * 3 && new_width == width && new_height == height
            ==> (r matches Some(v) && v@ == src@),
{
    let ghost before = src@;
    assert(before.len() == width * height * 3 ==> before.take(width * height * 3) =~= before);
    resize_rgb(src, width as u32, height as u32, new_width as u32, new_height as u32)
}

} // verus!
