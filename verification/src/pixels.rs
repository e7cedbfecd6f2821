//! Conversions between pixel formats.

use rayon::iter::{IndexedParallelIterator, ParallelIterator};
use rayon::slice::{ParallelSlice, ParallelSliceMut};
use vstd::prelude::*;

verus! {

/// A decoded picture: a plane of brightness and two planes of colour at half its width and
/// height. Each plane's rows begin a stride apart.
#[derive(Debug)]
pub struct YuvFrame {
    pub width: usize,
    pub height: usize,
    pub y: Vec<u8>,
    pub u: Vec<u8>,
    pub v: Vec<u8>,
    pub y_stride: usize,
    pub u_stride: usize,
    pub v_stride: usize,
}

/// A decoded picture with its planes as mathematical sequences.
#[verifier::ext_equal]
pub struct YuvModel {
    pub width: int,
    pub height: int,
    pub y: Seq<u8>,
    pub u: Seq<u8>,
    pub v: Seq<u8>,
    pub y_stride: int,
    pub u_stride: int,
    pub v_stride: int,
}

impl View for YuvFrame {
    type V = YuvModel;

    open spec fn view(&self) -> YuvModel {
        YuvModel {
            width: self.width as int,
            height: self.height as int,
            y: self.y@,
            u: self.u@,
            v: self.v@,
            y_stride: self.y_stride as int,
            u_stride: self.u_stride as int,
            v_stride: self.v_stride as int,
        }
    }
}

/// Whether a plane holds the last of `rows` rows of `width` bytes.
pub open spec fn plane_fits(len: int, rows: int, width: int, stride: int) -> bool {
    rows > 0 && width > 0 ==> (rows - 1) * stride + width <= len
}

/// The rows of a plane.
pub open spec fn plane_rows(plane: Seq<u8>, rows: int, width: int, stride: int) -> Seq<Seq<u8>> {
    Seq::new(rows as nat, |r: int| plane.subrange(r * stride, r * stride + width))
}

/// A picture by the rows of its planes.
#[verifier::ext_equal]
pub struct Picture {
    pub width: int,
    pub height: int,
    pub y: Seq<Seq<u8>>,
    pub u: Seq<Seq<u8>>,
    pub v: Seq<Seq<u8>>,
    /// Whether no row lacks bytes.
    pub whole: bool,
}

/// Whether the bytes of an RGBA picture can be counted.
pub open spec fn countable(width: int, height: int) -> bool {
    width * height * 4 <= usize::MAX && width * 4 <= usize::MAX
}

impl YuvModel {
    /// Whether the planes hold all of the picture.
    pub open spec fn whole(self) -> bool {
        let (w, h) = (self.width, self.height);
        &&& plane_fits(self.y.len() as int, h, w, self.y_stride)
        &&& plane_fits(self.u.len() as int, (h + 1) / 2, (w + 1) / 2, self.u_stride)
        &&& plane_fits(self.v.len() as int, (h + 1) / 2, (w + 1) / 2, self.v_stride)
    }

    /// Whether the picture can be converted.
    pub open spec fn complete(self) -> bool {
        self.picture().complete()
    }

    /// The picture, without what lies between the rows of its planes.
    pub open spec fn picture(self) -> Picture {
        let (w, h) = (self.width, self.height);
        Picture {
            width: w,
            height: h,
            y: plane_rows(self.y, h, w, self.y_stride),
            u: plane_rows(self.u, (h + 1) / 2, (w + 1) / 2, self.u_stride),
            v: plane_rows(self.v, (h + 1) / 2, (w + 1) / 2, self.v_stride),
            whole: self.whole(),
        }
    }
}

impl Picture {
    /// Whether the picture can be converted: it is whole, and its pixels can be counted.
    pub open spec fn complete(self) -> bool {
        self.whole && countable(self.width, self.height)
    }

    /// The bytes of the picture as RGBA.
    pub open spec fn rgba(self) -> Seq<u8> {
        Seq::new(
            (self.width * self.height * 4) as nat,
            |i: int| rgba_row(self, i / (self.width * 4))[i % (self.width * 4)],
        )
    }
}

/// A value brought into the range of a byte.
pub open spec fn byte(v: int) -> u8 {
    if v < 0 {
        0u8
    } else if v > 255 {
        255u8
    } else {
        v as u8
    }
}

/// One channel of a pixel by the BT.601 rule for limited-range video: channel 0 is red, 1
/// green, 2 blue and 3 the opacity.
pub open spec fn channel(y: int, u: int, v: int, k: int) -> u8 {
    let c = 298 * (y - 16);
    if k == 0 {
        byte((c + 409 * (v - 128) + 128) / 256)
    } else if k == 1 {
        byte((c - 100 * (u - 128) - 208 * (v - 128) + 128) / 256)
    } else if k == 2 {
        byte((c + 516 * (u - 128) + 128) / 256)
    } else {
        255u8
    }
}

/// One row of a picture as RGBA.
pub open spec fn rgba_row(p: Picture, row: int) -> Seq<u8> {
    Seq::new(
        (p.width * 4) as nat,
        |i: int|
            channel(
                p.y[row][i / 4] as int,
                p.u[row / 2][i / 4 / 2] as int,
                p.v[row / 2][i / 4 / 2] as int,
                i % 4,
            ),
    )
}

fn to_byte(v: i32) -> (r: u8)
    requires
        -0x10_0000 <= v <= 0x10_0000,
    ensures
        r == byte(v as int / 256),
{
    if v < 0 {
        0
    } else if v / 256 > 255 {
        255
    } else {
        (v / 256) as u8
    }
}

/// Converts one row of a picture.
fn convert_row(frame: &YuvFrame, row: usize, out: &mut [u8])
    requires
        frame@.complete(),
        row < frame.height,
        old(out)@.len() == frame.width * 4,
    ensures
        final(out)@ == rgba_row(frame@.picture(), row as int),
{
    let width: usize = frame.width;
    if width == 0 {
        assert(out@ =~= rgba_row(frame@.picture(), row as int));
        return;
    }
    let half: usize = row / 2;
    proof {
        let (h, r) = (frame.height as int, row as int);
        let (ys, us, vs) = (
            frame.y_stride as int,
            frame.u_stride as int,
            frame.v_stride as int,
        );
        let last = (h + 1) / 2 - 1;
        assert(0 <= r * ys <= (h - 1) * ys) by (nonlinear_arith)
            requires
                0 <= r <= h - 1,
                ys >= 0,
        ;
        assert(0 <= half <= last);
        assert(0 <= half * us <= last * us) by (nonlinear_arith)
            requires
                0 <= half <= last,
                us >= 0,
        ;
        assert(0 <= half * vs <= last * vs) by (nonlinear_arith)
            requires
                0 <= half <= last,
                vs >= 0,
        ;
    }
    assert(row * frame.y_stride + width <= frame.y.len());
    assert(half * frame.u_stride + (width + 1) / 2 <= frame.u.len());
    assert(half * frame.v_stride + (width + 1) / 2 <= frame.v.len());
    let y_start: usize = row * frame.y_stride;
    let u_start: usize = half * frame.u_stride;
    let v_start: usize = half * frame.v_stride;
    let mut x: usize = 0;
    while x < width
        invariant
            x <= width,
            width == frame.width,
            width > 0,
            frame@.complete(),
            row < frame.height,
            half == row / 2,
            y_start == row * frame.y_stride,
            u_start == half * frame.u_stride,
            v_start == half * frame.v_stride,
            y_start + width <= frame.y.len(),
            u_start + (width + 1) / 2 <= frame.u.len(),
            v_start + (width + 1) / 2 <= frame.v.len(),
            out@.len() == width * 4,
            width * 4 <= usize::MAX,
            forall|i: int| 0 <= i < x * 4 ==> out@[i] == #[trigger] rgba_row(frame@.picture(), row as int)[i],
        decreases width - x,
    {
        let luma: i32 = frame.y[y_start + x] as i32;
        let cb: i32 = frame.u[u_start + x / 2] as i32 - 128;
        let cr: i32 = frame.v[v_start + x / 2] as i32 - 128;
        proof {
            let p = frame@.picture();
            assert(p.y[row as int][x as int] == frame.y@[y_start + x]);
            assert(p.u[half as int][x as int / 2] == frame.u@[u_start + x as int / 2]);
            assert(p.v[half as int][x as int / 2] == frame.v@[v_start + x as int / 2]);
        }
        let c: i32 = 298 * (luma - 16);
        let ghost before = out@;
        out[x * 4] = to_byte(c + 409 * cr + 128);
        out[x * 4 + 1] = to_byte(c - 100 * cb - 208 * cr + 128);
        out[x * 4 + 2] = to_byte(c + 516 * cb + 128);
        out[x * 4 + 3] = 255;
        proof {
            let done = rgba_row(frame@.picture(), row as int);
            assert forall|i: int| 0 <= i < (x + 1) * 4 implies out@[i] == #[trigger] done[i] by {
                if i < x * 4 {
                    assert(out@[i] == before[i]);
                } else {
                    assert(i / 4 == x);
                    assert(i % 4 == i - x * 4);
                }
            }
        }
        x += 1;
    }
    assert(out@ =~= rgba_row(frame@.picture(), row as int));
}

/// Converts the rows of a picture in parallel, with `par_chunks_exact_mut` of rayon, which
/// hands each whole chunk of `row_bytes` bytes to the closure once, with its number. The
/// buffer's rows are then those that `convert_row` makes; its length does not change.
#[verifier::external_body]
fn convert_rows(frame: &YuvFrame, row_bytes: usize, out: &mut Vec<u8>)
    requires
        frame@.complete(),
        row_bytes > 0,
        row_bytes == frame.width * 4,
        old(out)@.len() == frame.height * row_bytes,
    ensures
        final(out)@.len() == old(out)@.len(),
        forall|row: int|
            0 <= row < frame.height ==> #[trigger] final(out)@.subrange(
                row * row_bytes,
                (row + 1) * row_bytes,
            ) == rgba_row(frame@.picture(), row),
{
    out.par_chunks_exact_mut(row_bytes)
        .enumerate()
        .for_each(|(row, chunk)| convert_row(frame, row, chunk));
}

/// Converts a picture to RGBA.
pub fn yuv420p_to_rgba(frame: &YuvFrame) -> (r: Vec<u8>)
    requires
        frame@.complete(),
    ensures
        r@ == frame@.picture().rgba(),
{
    let mut out: Vec<u8> = Vec::new();
    if frame.width == 0 || frame.height == 0 {
        proof {
            let (w, h) = (frame.width as int, frame.height as int);
            assert(w * h * 4 == 0) by (nonlinear_arith)
                requires
                    w == 0 || h == 0,
            ;
            assert(out@ =~= frame@.picture().rgba());
        }
        return out;
    }
    proof {
        let (w, h) = (frame.width as int, frame.height as int);
        assert(h * (w * 4) == w * h * 4) by (nonlinear_arith);
    }
    let row_bytes: usize = frame.width * 4;
    out.resize(frame.height * row_bytes, 0);
    convert_rows(frame, row_bytes, &mut out);
    proof {
        let all = frame@.picture().rgba();
        let n = row_bytes as int;
        assert forall|i: int| 0 <= i < all.len() implies out@[i] == all[i] by {
            let row = i / n;
            let h = frame.height as int;
            vstd::arithmetic::div_mod::lemma_fundamental_div_mod(i, n);
            assert(0 <= row < h) by {
                assert(i / n < h) by (nonlinear_arith)
                    requires
                        0 <= i < h * n,
                        n > 0,
                ;
                vstd::arithmetic::div_mod::lemma_div_pos_is_pos(i, n);
            }
            assert(n * row == row * n) by (nonlinear_arith);
            assert((row + 1) * n == row * n + n) by (nonlinear_arith);
            assert((row + 1) * n <= h * n) by (nonlinear_arith)
                requires
                    row + 1 <= h,
                    n > 0,
            ;
            assert(row * n >= 0) by (nonlinear_arith)
                requires
                    row >= 0,
                    n > 0,
            ;
            let chunk = out@.subrange(row * n, (row + 1) * n);
            assert(chunk == rgba_row(frame@.picture(), row));
            assert(chunk[i % n] == out@[row * n + i % n]);
        }
        assert(out@ =~= all);
    }
    out
}

fn plane_is_complete(len: usize, rows: usize, width: usize, stride: usize) -> (r: bool)
    ensures
        r == plane_fits(len as int, rows as int, width as int, stride as int),
{
    if rows == 0 || width == 0 {
        return true;
    }
    proof {
        let (a, b) = (rows as int - 1, stride as int);
        assert(0 <= a * b <= 0xffff_ffff_ffff_fffe * 0xffff_ffff_ffff_ffff) by (nonlinear_arith)
            requires
                0 <= a <= 0xffff_ffff_ffff_fffe,
                0 <= b <= 0xffff_ffff_ffff_ffff,
        ;
    }
    (rows as u128 - 1) * stride as u128 + width as u128 <= len as u128
}

/// Checks that the planes of a picture hold all of it.
pub fn is_complete(frame: &YuvFrame) -> (r: bool)
    ensures
        r == frame@.complete(),
{
    let (w, h) = (frame.width, frame.height);
    let half_w: usize = w / 2 + w % 2;
    let half_h: usize = h / 2 + h % 2;
    assert(half_w == (w + 1) / 2);
    assert(half_h == (h + 1) / 2);
    proof {
        let (a, b) = (w as int, h as int);
        assert(0 <= a * b <= 0xffff_ffff_ffff_ffff * 0xffff_ffff_ffff_ffff) by (nonlinear_arith)
            requires
                0 <= a <= 0xffff_ffff_ffff_ffff,
                0 <= b <= 0xffff_ffff_ffff_ffff,
        ;
    }
    let pixels: u128 = w as u128 * h as u128;
    plane_is_complete(frame.y.len(), h, w, frame.y_stride) && plane_is_complete(
        frame.u.len(),
        half_h,
        half_w,
        frame.u_stride,
    ) && plane_is_complete(frame.v.len(), half_h, half_w, frame.v_stride) && pixels
        <= usize::MAX as u128 / 4 && w <= usize::MAX / 4
}

// Fading

/// A pixel with its colours scaled by `num / den`. The opacity stays.
pub open spec fn faded_pixel(p: Seq<u8>, num: int, den: int) -> Seq<u8> {
    seq![
        (p[0] * num / den) as u8,
        (p[1] * num / den) as u8,
        (p[2] * num / den) as u8,
        p[3],
    ]
}

/// A picture with the colours of its pixels scaled by `num / den`.
pub open spec fn faded(rgba: Seq<u8>, num: int, den: int) -> Seq<u8> {
    Seq::new(
        rgba.len(),
        |i: int|
            if i / 4 * 4 + 4 <= rgba.len() {
                faded_pixel(rgba.subrange(i / 4 * 4, i / 4 * 4 + 4), num, den)[i % 4]
            } else {
                rgba[i]
            },
    )
}

fn scale_byte(b: u8, num: i64, den: i64) -> (r: u8)
    requires
        0 <= num <= den,
        den > 0,
    ensures
        r == (b * num / den as int) as u8,
        0 <= b * num / den as int <= 255,
{
    proof {
        let (x, n, d) = (b as int, num as int, den as int);
        assert(0 <= x * n <= 255 * d) by (nonlinear_arith)
            requires
                0 <= x <= 255,
                0 <= n <= d,
        ;
        assert(0 <= (x * n) / d <= 255) by (nonlinear_arith)
            requires
                0 <= x * n <= 255 * d,
                d > 0,
        ;
    }
    (b as i128 * num as i128 / den as i128) as u8
}

/// Scales the colours of one pixel.
fn fade_pixel(pixel: &mut [u8], num: i64, den: i64)
    requires
        old(pixel)@.len() == 4,
        0 <= num <= den,
        den > 0,
    ensures
        final(pixel)@ == faded_pixel(old(pixel)@, num as int, den as int),
{
    pixel[0] = scale_byte(pixel[0], num, den);
    pixel[1] = scale_byte(pixel[1], num, den);
    pixel[2] = scale_byte(pixel[2], num, den);
    assert(pixel@ =~= faded_pixel(old(pixel)@, num as int, den as int));
}

/// Scales the pixels of a picture in parallel, with `par_chunks_exact_mut` of rayon, which
/// hands each whole chunk of four bytes to the closure once. Each is then what `fade_pixel`
/// makes of it; the bytes behind the last whole chunk and the length do not change.
#[verifier::external_body]
fn fade_chunks(rgba: &mut Vec<u8>, num: i64, den: i64)
    requires
        0 <= num <= den,
        den > 0,
    ensures
        final(rgba)@.len() == old(rgba)@.len(),
        forall|k: int|
            0 <= k && k * 4 + 4 <= old(rgba)@.len() ==> #[trigger] final(rgba)@.subrange(
                k * 4,
                k * 4 + 4,
            ) == faded_pixel(old(rgba)@.subrange(k * 4, k * 4 + 4), num as int, den as int),
        forall|i: int|
            0 <= i < old(rgba)@.len() && i / 4 * 4 + 4 > old(rgba)@.len() ==> final(rgba)@[i]
                == #[trigger] old(rgba)@[i],
{
    rgba.par_chunks_exact_mut(4).for_each(|pixel| fade_pixel(pixel, num, den));
}

/// Scales the colours of a picture by `num / den`.
pub fn fade(rgba: &mut Vec<u8>, num: i64, den: i64)
    requires
        0 <= num <= den,
        den > 0,
    ensures
        final(rgba)@ == faded(old(rgba)@, num as int, den as int),
{
    let ghost before = rgba@;
    fade_chunks(rgba, num, den);
    proof {
        let all = faded(before, num as int, den as int);
        assert forall|i: int| 0 <= i < all.len() implies rgba@[i] == all[i] by {
            let k = i / 4;
            if k * 4 + 4 <= before.len() {
                let chunk = rgba@.subrange(k * 4, k * 4 + 4);
                assert(chunk == faded_pixel(
                    before.subrange(k * 4, k * 4 + 4),
                    num as int,
                    den as int,
                ));
                assert(chunk[i % 4] == rgba@[k * 4 + i % 4]);
            } else {
                assert(before[i] == rgba@[i]);
            }
        }
        assert(rgba@ =~= all);
    }
}

// Screen captures

/// The colours of a captured pixel, red first.
pub open spec fn rgb_pixel(bgra: Seq<u8>) -> Seq<u8> {
    seq![bgra[2], bgra[1], bgra[0]]
}

/// The colours of a captured picture.
pub open spec fn rgb_of_bgra(bgra: Seq<u8>) -> Seq<u8> {
    Seq::new(
        bgra.len() / 4 * 3,
        |i: int| rgb_pixel(bgra.subrange(i / 3 * 4, i / 3 * 4 + 4))[i % 3],
    )
}

/// Copies the colours of one captured pixel.
fn copy_pixel(rgb: &mut [u8], bgra: &[u8])
    requires
        old(rgb)@.len() == 3,
        bgra@.len() == 4,
    ensures
        final(rgb)@ == rgb_pixel(bgra@),
{
    rgb[0] = bgra[2];
    rgb[1] = bgra[1];
    rgb[2] = bgra[0];
    assert(rgb@ =~= rgb_pixel(bgra@));
}

/// Copies the pixels of a captured picture in parallel, with `par_chunks_exact_mut`,
/// `par_chunks_exact` and `zip` of rayon: the closure gets each pair of chunks with the same
/// number once. Each chunk of the target is then what `copy_pixel` makes of the captured
/// one; its length does not change.
#[verifier::external_body]
fn copy_pixels(rgb: &mut Vec<u8>, bgra: &Vec<u8>)
    requires
        bgra@.len() % 4 == 0,
        old(rgb)@.len() == bgra@.len() / 4 * 3,
    ensures
        final(rgb)@.len() == old(rgb)@.len(),
        forall|k: int|
            0 <= k < bgra@.len() / 4 ==> #[trigger] final(rgb)@.subrange(k * 3, k * 3 + 3)
                == rgb_pixel(bgra@.subrange(k * 4, k * 4 + 4)),
{
    rgb.par_chunks_exact_mut(3)
        .zip(bgra.par_chunks_exact(4))
        .for_each(|(rgb, bgra)| copy_pixel(rgb, bgra));
}

/// Converts a captured picture to RGB, into a buffer of the right size.
pub fn bgra_to_rgb(bgra: &Vec<u8>, rgb: &mut Vec<u8>)
    requires
        bgra@.len() % 4 == 0,
        old(rgb)@.len() == bgra@.len() / 4 * 3,
    ensures
        final(rgb)@ == rgb_of_bgra(bgra@),
{
    copy_pixels(rgb, bgra);
    proof {
        let all = rgb_of_bgra(bgra@);
        assert forall|i: int| 0 <= i < all.len() implies rgb@[i] == all[i] by {
            let k = i / 3;
            let chunk = rgb@.subrange(k * 3, k * 3 + 3);
            assert(chunk == rgb_pixel(bgra@.subrange(k * 4, k * 4 + 4)));
            assert(chunk[i % 3] == rgb@[k * 3 + i % 3]);
        }
        assert(rgb@ =~= all);
    }
}

/// An RGB picture with an opaque fourth channel.
pub open spec fn rgba_of_rgb(rgb: Seq<u8>) -> Seq<u8> {
    Seq::new(
        rgb.len() / 3 * 4,
        |i: int|
            if i % 4 == 3 {
                255u8
            } else {
                rgb[i / 4 * 3 + i % 4]
            },
    )
}

/// Adds an opaque fourth channel to a picture.
pub fn rgb_to_rgba(rgb: &Vec<u8>) -> (r: Vec<u8>)
    requires
        rgb@.len() / 3 * 4 <= usize::MAX,
    ensures
        r@ == rgba_of_rgb(rgb@),
{
    let pixels: usize = rgb.len() / 3;
    let mut r: Vec<u8> = Vec::with_capacity(pixels * 4);
    let mut k: usize = 0;
    while k < pixels
        invariant
            k <= pixels,
            pixels == rgb@.len() / 3,
            rgb.len() == rgb@.len(),
            r@.len() == k * 4,
            forall|i: int| 0 <= i < k * 4 ==> r@[i] == #[trigger] rgba_of_rgb(rgb@)[i],
        decreases pixels - k,
    {
        let ghost before = r@;
        r.push(rgb[k * 3]);
        r.push(rgb[k * 3 + 1]);
        r.push(rgb[k * 3 + 2]);
        r.push(255);
        proof {
            let all = rgba_of_rgb(rgb@);
            assert forall|i: int| 0 <= i < (k + 1) * 4 implies r@[i] == #[trigger] all[i] by {
                if i < k * 4 {
                    assert(r@[i] == before[i]);
                } else {
                    assert(i / 4 == k);
                    assert(i % 4 == i - k * 4);
                }
            }
        }
        k += 1;
    }
    assert(r@ =~= rgba_of_rgb(rgb@));
    r
}

} // verus!
