//! What the conversions of pictures promise, pixel by pixel.

use crate::pixels::{Picture, YuvModel};
use crate::preview::{CachedFrame, Image};
use vstd::prelude::*;

verus! {

/// Whether a byte is the nearest to a 256th of `sum`, halves rounded up, within the range of a
/// byte.
pub open spec fn is_nearest_byte(b: u8, sum: int) -> bool {
    let n = sum + 128;
    if n < 0 {
        b == 0
    } else if n >= 256 * 256 {
        b == 255
    } else {
        256 * b <= n < 256 * (b + 1)
    }
}

/// Whether a plane holds `rows` rows of `width` bytes, a stride apart.
pub open spec fn holds_rows(plane: Seq<u8>, rows: int, width: int, stride: int) -> bool {
    rows > 0 && width > 0 ==> (rows - 1) * stride + width <= plane.len()
}

/// A picture can be converted exactly where its planes hold all its rows, those of the colours
/// at half the width and height rounded up, and its pixels can be counted.
pub proof fn complete_pictures_have_all_their_rows(f: YuvModel)
    requires
        f.width >= 0,
        f.height >= 0,
    ensures
        f.complete() == ({
            &&& holds_rows(f.y, f.height, f.width, f.y_stride)
            &&& holds_rows(f.u, (f.height + 1) / 2, (f.width + 1) / 2, f.u_stride)
            &&& holds_rows(f.v, (f.height + 1) / 2, (f.width + 1) / 2, f.v_stride)
            &&& f.width * f.height * 4 <= usize::MAX
            &&& f.width * 4 <= usize::MAX
        }),
{
}

/// A pixel of a converted picture has the colours that the BT.601 rule for limited-range video
/// gives for its brightness and for the colours of its block of four pixels, red first, and is
/// opaque. The pixels come row by row, from the top and from the left.
pub proof fn pixels_get_their_colours(p: Picture, x: int, y: int)
    requires
        0 <= x < p.width,
        0 <= y < p.height,
    ensures
        ({
            let at = (y * p.width + x) * 4;
            let c = 298 * (p.y[y][x] - 16);
            let u = p.u[y / 2][x / 2] - 128;
            let v = p.v[y / 2][x / 2] - 128;
            &&& p.rgba().len() == p.width * p.height * 4
            &&& 0 <= at && at + 4 <= p.rgba().len()
            &&& is_nearest_byte(p.rgba()[at], c + 409 * v)
            &&& is_nearest_byte(p.rgba()[at + 1], c - 100 * u - 208 * v)
            &&& is_nearest_byte(p.rgba()[at + 2], c + 516 * u)
            &&& p.rgba()[at + 3] == 255
        }),
{
    let w = p.width;
    let n = w * 4;
    let at = (y * w + x) * 4;
    assert(at == y * n + x * 4) by (nonlinear_arith)
        requires
            at == (y * w + x) * 4,
            n == w * 4,
    ;
    assert(y * n >= 0) by (nonlinear_arith)
        requires
            y >= 0,
            n > 0,
    ;
    assert(y * n + n <= p.height * n) by (nonlinear_arith)
        requires
            y + 1 <= p.height,
            n > 0,
    ;
    assert(p.height * n == w * p.height * 4) by (nonlinear_arith)
        requires
            n == w * 4,
    ;
    assert forall|k: int| 0 <= k < 4 implies #[trigger] p.rgba()[at + k]
        == crate::pixels::channel(
        p.y[y][x] as int,
        p.u[y / 2][x / 2] as int,
        p.v[y / 2][x / 2] as int,
        k,
    ) by {
        let i = at + k;
        assert(i == y * n + (x * 4 + k));
        vstd::arithmetic::div_mod::lemma_fundamental_div_mod_converse(i, n, y, x * 4 + k);
        assert(i / n == y && i % n == x * 4 + k);
        assert((x * 4 + k) / 4 == x);
        assert((x * 4 + k) % 4 == k);
    }
    assert(p.rgba()[at + 0] == p.rgba()[at]);
    assert(p.rgba()[at + 1] == p.rgba()[at + 1]);
}

/// The rows of a decoded picture are those of its planes: row `y` begins that many strides
/// behind the beginning of the plane.
pub proof fn rows_are_a_stride_apart(f: YuvModel, x: int, y: int)
    requires
        f.complete(),
        0 <= x < f.width,
        0 <= y < f.height,
        f.y_stride >= 0,
        f.u_stride >= 0,
        f.v_stride >= 0,
    ensures
        f.picture().width == f.width,
        f.picture().height == f.height,
        f.picture().y[y][x] == f.y[y * f.y_stride + x],
        f.picture().u[y / 2][x / 2] == f.u[y / 2 * f.u_stride + x / 2],
        f.picture().v[y / 2][x / 2] == f.v[y / 2 * f.v_stride + x / 2],
{
    let (h, w) = ((f.height + 1) / 2, (f.width + 1) / 2);
    lemma_row_fits(f.y.len() as int, f.height, f.width, f.y_stride, y);
    lemma_row_fits(f.u.len() as int, h, w, f.u_stride, y / 2);
    lemma_row_fits(f.v.len() as int, h, w, f.v_stride, y / 2);
}

proof fn lemma_row_fits(len: int, rows: int, width: int, stride: int, y: int)
    requires
        0 <= y < rows,
        width > 0,
        stride >= 0,
        (rows - 1) * stride + width <= len,
    ensures
        0 <= y * stride,
        y * stride + width <= len,
{
    assert(0 <= y * stride <= (rows - 1) * stride) by (nonlinear_arith)
        requires
            0 <= y <= rows - 1,
            stride >= 0,
    ;
}

/// Whether `b` is `part` of `whole` of `a`, rounded down.
pub open spec fn is_part_of(b: u8, a: u8, part: int, whole: int) -> bool {
    b * whole <= a * part < (b + 1) * whole
}

/// Fading scales the three colours of each pixel and leaves its opacity and what is behind the
/// last whole pixel as it is.
pub proof fn fading_scales_the_colours(rgba: Seq<u8>, part: int, whole: int, i: int)
    requires
        0 <= part <= whole,
        whole > 0,
        0 <= i < rgba.len(),
    ensures
        crate::pixels::faded(rgba, part, whole).len() == rgba.len(),
        i / 4 * 4 + 4 <= rgba.len() && i % 4 != 3 ==> is_part_of(
            crate::pixels::faded(rgba, part, whole)[i],
            rgba[i],
            part,
            whole,
        ),
        i / 4 * 4 + 4 > rgba.len() || i % 4 == 3 ==> crate::pixels::faded(rgba, part, whole)[i]
            == rgba[i],
{
    let k = i / 4;
    if k * 4 + 4 <= rgba.len() {
        let pixel = rgba.subrange(k * 4, k * 4 + 4);
        assert(pixel[i % 4] == rgba[i]);
        if i % 4 != 3 {
            let a = rgba[i] as int;
            let q = a * part / whole;
            assert(0 <= a * part <= 255 * whole) by (nonlinear_arith)
                requires
                    0 <= a <= 255,
                    0 <= part <= whole,
            ;
            vstd::arithmetic::div_mod::lemma_fundamental_div_mod(a * part, whole);
            vstd::arithmetic::div_mod::lemma_div_pos_is_pos(a * part, whole);
            assert(q <= 255) by (nonlinear_arith)
                requires
                    whole * q <= a * part,
                    a * part <= 255 * whole,
                    whole > 0,
            ;
            assert(whole * q == q * whole) by (nonlinear_arith);
            assert((q + 1) * whole == q * whole + whole) by (nonlinear_arith);
            assert(crate::pixels::faded(rgba, part, whole)[i] == q as u8);
        }
    }
}

/// A picture is shown at its own size: with its own bytes where it is not faded, else with its
/// colours scaled.
pub proof fn shown_pictures_are_their_frames(
    image: Image,
    frame: CachedFrame,
    part: int,
    whole: int,
    i: int,
)
    requires
        0 <= part <= whole,
        whole > 0,
        crate::preview::looks_like(image, frame, (part, whole)),
        0 <= i < frame.rgba@.len(),
    ensures
        image.width == frame.width,
        image.height == frame.height,
        image.rgba@.len() == frame.rgba@.len(),
        i / 4 * 4 + 4 <= frame.rgba@.len() && i % 4 != 3 ==> is_part_of(
            image.rgba@[i],
            frame.rgba@[i],
            part,
            whole,
        ),
        i / 4 * 4 + 4 > frame.rgba@.len() || i % 4 == 3 ==> image.rgba@[i] == frame.rgba@[i],
        part == whole ==> image.rgba@ == frame.rgba@,
{
    fading_scales_the_colours(frame.rgba@, part, whole, i);
    if part == whole {
        let a = frame.rgba@[i] as int;
        assert(a * whole <= a * part < (a + 1) * whole) by (nonlinear_arith)
            requires
                part == whole,
                whole > 0,
        ;
    }
}

/// A captured pixel keeps its colours, which come red first instead of blue first; its fourth
/// byte is dropped.
pub proof fn captured_pixels_keep_their_colours(bgra: Seq<u8>, k: int)
    requires
        0 <= k,
        k * 4 + 4 <= bgra.len(),
    ensures
        ({
            let rgb = crate::pixels::rgb_of_bgra(bgra);
            &&& rgb.len() == bgra.len() / 4 * 3
            &&& rgb[3 * k] == bgra[4 * k + 2]
            &&& rgb[3 * k + 1] == bgra[4 * k + 1]
            &&& rgb[3 * k + 2] == bgra[4 * k]
        }),
{
    let pixel = bgra.subrange(k * 4, k * 4 + 4);
    assert(pixel[0] == bgra[4 * k]);
    assert(pixel[1] == bgra[4 * k + 1]);
    assert(pixel[2] == bgra[4 * k + 2]);
    assert((3 * k) / 3 == k && (3 * k) % 3 == 0);
    assert((3 * k + 1) / 3 == k && (3 * k + 1) % 3 == 1);
    assert((3 * k + 2) / 3 == k && (3 * k + 2) % 3 == 2);
}

/// A pixel that gets a fourth channel keeps its colours and becomes opaque.
pub proof fn added_channels_are_opaque(rgb: Seq<u8>, k: int)
    requires
        0 <= k,
        k * 3 + 3 <= rgb.len(),
    ensures
        ({
            let rgba = crate::pixels::rgba_of_rgb(rgb);
            &&& rgba.len() == rgb.len() / 3 * 4
            &&& rgba[4 * k] == rgb[3 * k]
            &&& rgba[4 * k + 1] == rgb[3 * k + 1]
            &&& rgba[4 * k + 2] == rgb[3 * k + 2]
            &&& rgba[4 * k + 3] == 255
        }),
{
    assert((4 * k) / 4 == k && (4 * k) % 4 == 0);
    assert((4 * k + 1) / 4 == k && (4 * k + 1) % 4 == 1);
    assert((4 * k + 2) / 4 == k && (4 * k + 2) % 4 == 2);
    assert((4 * k + 3) / 4 == k && (4 * k + 3) % 4 == 3);
}

// Thumbnails

/// Whether `w` is the width that keeps the proportions of a picture at a height of 64, rounded
/// to the nearest, and at least one.
pub open spec fn is_thumb_width(width: int, height: int, w: int) -> bool {
    ||| w >= 1 && (2 * w - 1) * height <= 128 * width < (2 * w + 1) * height
    ||| w == 1 && 128 * width < height
}

/// A thumbnail is 64 high and keeps the proportions of its picture, which is scaled as it is.
/// An empty picture, or one of which bytes are missing, stays as it is.
pub proof fn thumbnails_keep_the_proportions(rgba: Seq<u8>, width: int, height: int)
    requires
        width >= 0,
        height >= 0,
    ensures
        ({
            let (bytes, w, h) = crate::thumbnail::downscaled(rgba, width, height);
            if width > 0 && height > 0 && rgba.len() >= width * height * 4 {
                &&& h == 64
                &&& is_thumb_width(width, height, w)
                &&& bytes == crate::resample::scaled_rgba(rgba, width, height, w, 64)
            } else {
                bytes == rgba && w == width && h == height
            }
        }),
{
    if width > 0 && height > 0 {
        lemma_thumb_width(width, height);
    }
}

proof fn lemma_thumb_width(width: int, height: int)
    requires
        width > 0,
        height > 0,
    ensures
        is_thumb_width(width, height, crate::thumbnail::thumb_width(width, height)),
{
    let n = width * 128 + height;
    let q = n / (2 * height);
    vstd::arithmetic::div_mod::lemma_fundamental_div_mod(n, 2 * height);
    vstd::arithmetic::div_mod::lemma_div_pos_is_pos(n, 2 * height);
    assert((2 * height) * q == (2 * q - 1) * height + height) by (nonlinear_arith);
    assert((2 * height) * q + 2 * height == (2 * q + 1) * height + height) by (nonlinear_arith);
    if q == 0 {
        assert((2 * q + 1) * height == height) by (nonlinear_arith)
            requires
                q == 0,
        ;
    }
}

/// Every picture whose sides have no more than 65535 pixels can be scaled to its thumbnail, if
/// its own pixels fit in memory.
pub proof fn ordinary_pictures_get_a_thumbnail(width: int, height: int)
    requires
        0 <= width <= 65_535,
        0 <= height <= 65_535,
        width * height * 4 <= isize::MAX,
    ensures
        crate::thumbnail::thumb_fits(width, height),
{
    if width > 0 && height > 0 {
        lemma_thumb_width(width, height);
        let w = crate::thumbnail::thumb_width(width, height);
        assert(w <= 64 * 65_535) by (nonlinear_arith)
            requires
                w <= 1 || (2 * w - 1) * height <= 128 * width,
                width <= 65_535,
                height >= 1,
                w >= 1,
        ;
    }
}

/// Pictures can be scaled between all sizes whose sides have no more than four million pixels,
/// if the pictures fit in memory, with sixteen bytes for each pixel.
pub proof fn ordinary_sizes_can_be_scaled(
    width: int,
    height: int,
    new_width: int,
    new_height: int,
)
    requires
        1 <= width <= 4_000_000,
        1 <= height <= 4_000_000,
        1 <= new_width <= 4_000_000,
        1 <= new_height <= 4_000_000,
        width * height * 16 <= isize::MAX,
        width * new_height * 16 <= isize::MAX,
        new_width * new_height * 16 <= isize::MAX,
    ensures
        crate::resample::can_scale(width, height, new_width, new_height),
{
    assert(0 <= width * height && 0 <= new_width * new_height) by (nonlinear_arith)
        requires
            width >= 1,
            height >= 1,
            new_width >= 1,
            new_height >= 1,
    ;
}

} // verus!
