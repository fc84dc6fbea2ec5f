//! Byte images: turning them upside down, resampling them and putting their channels
//! together.

use vstd::prelude::*;

verus! {

/// An image of `h` rows of `row` bytes turned upside down; bytes after the last row stay.
pub open spec fn flipped(s: Seq<u8>, row: int, h: int) -> Seq<u8> {
    Seq::new(
        s.len(),
        |k: int|
            if k < row * h {
                s[(h - 1 - k / row) * row + k % row]
            } else {
                s[k]
            },
    )
}

/// The byte that takes the place of the `k`-th one lies within the image, in the row that
/// is as far from the bottom as the `k`-th one is from the top, and in the same column.
proof fn flipped_index(k: int, row: int, h: int)
    requires
        0 <= k < row * h,
        0 <= row,
        0 <= h,
    ensures
        row > 0,
        0 <= k / row < h,
        0 <= k % row < row,
        0 <= (h - 1 - k / row) * row + k % row < row * h,
        ((h - 1 - k / row) * row + k % row) / row == h - 1 - k / row,
        ((h - 1 - k / row) * row + k % row) % row == k % row,
        (k / row) * row + k % row == k,
{
    assert(row > 0) by (nonlinear_arith)
        requires
            0 <= k < row * h,
            0 <= row,
            0 <= h,
    ;
    let q = k / row;
    let m = k % row;
    vstd::arithmetic::div_mod::lemma_fundamental_div_mod(k, row);
    assert(0 <= m < row) by (nonlinear_arith)
        requires
            m == k % row,
            row > 0,
    ;
    assert(q * row + m == k) by (nonlinear_arith)
        requires
            k == row * q + m,
    ;
    assert(0 <= q < h) by (nonlinear_arith)
        requires
            q * row + m == k,
            0 <= m < row,
            0 <= k < row * h,
            row > 0,
    ;
    let r = h - 1 - q;
    assert(0 <= r * row + m < row * h) by (nonlinear_arith)
        requires
            0 <= r < h,
            0 <= m < row,
    ;
    assert(r * row == row * r) by (nonlinear_arith);
    vstd::arithmetic::div_mod::lemma_fundamental_div_mod_converse(r * row + m, row, r, m);
}

/// Turning an image upside down twice gives it back.
pub proof fn flipped_twice(s: Seq<u8>, row: int, h: int)
    requires
        0 <= row,
        0 <= h,
        row * h <= s.len(),
    ensures
        flipped(flipped(s, row, h), row, h) == s,
{
    assert forall|k: int| 0 <= k < s.len() implies flipped(flipped(s, row, h), row, h)[k]
        == s[k] by {
        if k < row * h {
            flipped_index(k, row, h);
            let j = (h - 1 - k / row) * row + k % row;
            flipped_index(j, row, h);
        }
    }
    assert(flipped(flipped(s, row, h), row, h) =~= s);
}

/// An image of `h` rows of `row` bytes turned upside down.
fn flip(bytes: &Vec<u8>, row: usize, h: usize) -> (r: Vec<u8>)
    requires
        row * h <= bytes@.len(),
    ensures
        r@ == flipped(bytes@, row as int, h as int),
{
    let ghost all = flipped(bytes@, row as int, h as int);
    let n: usize = bytes.len();
    let mut out: Vec<u8> = Vec::new();
    let mut k: usize = 0;
    assert(row * h <= n);
    let size: usize = row * h;
    while k < n
        invariant
            k <= n == bytes@.len(),
            size == row * h,
            size <= n,
            all == flipped(bytes@, row as int, h as int),
            out@ == all.take(k as int),
        decreases n - k,
    {
        if k < size {
            proof {
                flipped_index(k as int, row as int, h as int);
                let r = h - 1 - k as int / row as int;
                assert(r * row <= row * h) by (nonlinear_arith)
                    requires
                        0 <= r < h,
                        0 <= row,
                ;
            }
            let from: usize = (h - 1 - k / row) * row + k % row;
            out.push(bytes[from]);
        } else {
            out.push(bytes[k]);
        }
        proof {
            assert(out@ =~= all.take(k + 1));
        }
        k = k + 1;
    }
    proof {
        assert(all.take(n as int) =~= all);
    }
    out
}

/// Turns an image of four bytes per pixel upside down.
pub fn flip_rows_rgba8(pixels: &mut Vec<u8>, w: u32, h: u32)
    requires
        w * 4 <= u32::MAX,
        w * 4 * h <= old(pixels)@.len(),
    ensures
        final(pixels)@ == flipped(old(pixels)@, w * 4, h as int),
{
    let out = flip(pixels, (w * 4) as usize, h as usize);
    *pixels = out;
}

/// Turns an image upside down.
pub fn flip_rows(bytes: &mut Vec<u8>, width: u32, height: u32, bytes_per_pixel: u32)
    requires
        width * bytes_per_pixel <= u32::MAX,
        width * bytes_per_pixel * height <= old(bytes)@.len(),
    ensures
        final(bytes)@ == flipped(old(bytes)@, width * bytes_per_pixel, height as int),
{
    let out = flip(bytes, (width * bytes_per_pixel) as usize, height as usize);
    *bytes = out;
}

/// What `image::imageops::resize` makes of an image of four bytes per pixel with its
/// triangle filter: the pixels of the source, its size, and the size asked for.
pub uninterp spec fn triangle_resized(
    src: Seq<u8>,
    src_w: u32,
    src_h: u32,
    target_w: u32,
    target_h: u32,
) -> Seq<u8>;

/// The largest side for which the filter's positions, which are single-precision numbers,
/// are exact enough that every new pixel has old ones under it.
pub const MAX_SIDE: u32 = 0x10_0000;

/// Calls `image::RgbaImage::from_raw` and `image::imageops::resize` with
/// `FilterType::Triangle`. `from_raw` takes any buffer that is long enough. The result has
/// four bytes for each pixel of the size asked for; which ones is left to the name.
/// Sides above `MAX_SIDE`, for which the filter can find nothing to average, and sizes
/// whose intermediate image of four single-precision numbers per pixel no vector can hold,
/// are left out.
#[verifier::external_body]
fn resize_triangle(src: &Vec<u8>, src_w: u32, src_h: u32, target_w: u32, target_h: u32) -> (r: Vec<
    u8,
>)
    requires
        4 * src_w * src_h <= src@.len(),
        src_w <= MAX_SIDE,
        src_h <= MAX_SIDE,
        target_w <= MAX_SIDE,
        target_h <= MAX_SIDE,
        16 * src_w * target_h <= isize::MAX,
        4 * target_w * target_h <= isize::MAX,
    ensures
        r@ == triangle_resized(src@, src_w, src_h, target_w, target_h),
        r@.len() == 4 * target_w * target_h,
{
    let image = image::RgbaImage::from_raw(src_w, src_h, src.clone()).expect("buffer too short");
    let filter = image::imageops::FilterType::Triangle;
    image::imageops::resize(&image, target_w, target_h, filter).into_raw()
}

/// A copy of the first bytes of an image.
fn copy_bytes(src: &Vec<u8>, n: usize) -> (r: Vec<u8>)
    requires
        n <= src@.len(),
    ensures
        r@ == src@.take(n as int),
{
    let mut out: Vec<u8> = Vec::new();
    let mut i: usize = 0;
    while i < n
        invariant
            i <= n <= src@.len(),
            out@ == src@.take(i as int),
        decreases n - i,
    {
        out.push(src[i]);
        proof {
            assert(out@ =~= src@.take(i + 1));
        }
        i = i + 1;
    }
    out
}

/// The pixels of an image at another size: as they are where the size is the same, else
/// resampled with a triangle filter.
pub open spec fn resized(src: Seq<u8>, src_w: u32, src_h: u32, target_w: u32, target_h: u32) -> Seq<
    u8,
> {
    if src_w == target_w && src_h == target_h {
        src.take(4 * src_w * src_h)
    } else {
        triangle_resized(src, src_w, src_h, target_w, target_h)
    }
}

/// The pixels of an image at another size.
pub fn resize_rgba8(src: &Vec<u8>, src_w: u32, src_h: u32, target_w: u32, target_h: u32) -> (r: Vec<
    u8,
>)
    requires
        4 * src_w * src_h <= src@.len(),
        src_w <= MAX_SIDE,
        src_h <= MAX_SIDE,
        target_w <= MAX_SIDE,
        target_h <= MAX_SIDE,
        16 * src_w * target_h <= isize::MAX,
        4 * target_w * target_h <= isize::MAX,
    ensures
        r@ == resized(src@, src_w, src_h, target_w, target_h),
        r@.len() == 4 * target_w * target_h,
{
    if src_w == target_w && src_h == target_h {
        proof {
            assert(src_w * src_h <= MAX_SIDE * MAX_SIDE) by (nonlinear_arith)
                requires
                    src_w <= MAX_SIDE,
                    src_h <= MAX_SIDE,
            ;
            assert(4 * src_w * src_h == 4 * (src_w * src_h)) by (nonlinear_arith);
            assert(src_w as u64 * src_h as u64 == src_w * src_h);
        }
        let pixels: u64 = src_w as u64 * src_h as u64;
        return copy_bytes(src, (4 * pixels) as usize);
    }
    resize_triangle(src, src_w, src_h, target_w, target_h)
}

/// The pixels of an image as a square tile takes them: at the resolution of the tile and
/// upside down.
pub fn tile_pixels(src: &Vec<u8>, src_w: u32, src_h: u32, resolution: u32) -> (r: Vec<u8>)
    requires
        4 * src_w * src_h <= src@.len(),
        src_w <= MAX_SIDE,
        src_h <= MAX_SIDE,
        resolution <= MAX_SIDE,
        16 * src_w * resolution <= isize::MAX,
        4 * resolution * resolution <= isize::MAX,
    ensures
        r@ == flipped(
            resized(src@, src_w, src_h, resolution, resolution),
            resolution * 4,
            resolution as int,
        ),
{
    let mut pixels = resize_rgba8(src, src_w, src_h, resolution, resolution);
    proof {
        assert(4 * resolution * resolution == resolution * 4 * resolution) by (nonlinear_arith);
    }
    flip_rows_rgba8(&mut pixels, resolution, resolution);
    pixels
}

/// Turning an image upside down exchanges its rows, the first with the last and so on, and
/// leaves every row as it is.
pub proof fn rows_change_places(s: Seq<u8>, row: int, h: int, y: int, x: int)
    requires
        0 <= x < row,
        0 <= y < h,
        row * h <= s.len(),
    ensures
        0 <= y * row + x < s.len(),
        flipped(s, row, h).len() == s.len(),
        flipped(s, row, h)[y * row + x] == s[(h - 1 - y) * row + x],
{
    assert(0 <= y * row + x < row * h) by (nonlinear_arith)
        requires
            0 <= x < row,
            0 <= y < h,
    ;
    assert(y * row == row * y) by (nonlinear_arith);
    vstd::arithmetic::div_mod::lemma_fundamental_div_mod_converse(y * row + x, row, y, x);
}

} // verus!
