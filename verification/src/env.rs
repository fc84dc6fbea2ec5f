//! Environment images: their smaller copies, and the ones that come with the program.

use crate::order::{list_by_stem, lists_by_stem};
use crate::paths::{extension, extension_of_path, stem_of_or, stem_or};
use crate::text::{lower, same_ignoring_case, views};
use vstd::arithmetic::power2::pow2;
use vstd::prelude::*;

verus! {

/// The size of the blurred copies of an environment, and how many there are: the first for
/// mirrors, the last for the roughest surfaces.
pub const PREFILTER_W: u32 = 512;

pub const PREFILTER_H: u32 = 256;

pub const PREFILTER_MIPS: u32 = 6;

/// How many binary digits a number has.
pub open spec fn bit_length(n: nat) -> nat
    decreases n,
{
    if n == 0 {
        0
    } else {
        1 + bit_length(n / 2)
    }
}

/// The larger of two numbers.
pub open spec fn larger(a: u32, b: u32) -> u32 {
    if a >= b {
        a
    } else {
        b
    }
}

/// How many sizes an image has, from its own down to a single pixel.
pub open spec fn mip_count_spec(dim: u32) -> nat {
    bit_length(larger(dim, 1) as nat)
}

/// A number of thirty-two bits has no more than thirty-two binary digits.
proof fn bit_length_is_small(n: nat, limit: nat)
    requires
        n < pow2(limit),
    ensures
        bit_length(n) <= limit,
    decreases limit,
{
    vstd::arithmetic::power2::lemma2_to64();
    if n > 0 && limit > 0 {
        vstd::arithmetic::power2::lemma_pow2_unfold(limit);
        bit_length_is_small(n / 2, (limit - 1) as nat);
    }
}

/// How many sizes an image has.
pub fn mip_count_for(dim: u32) -> (r: u32)
    ensures
        r == mip_count_spec(dim),
        1 <= r <= 32,
{
    let start: u32 = if dim > 1 {
        dim
    } else {
        1
    };
    let mut n: u32 = start;
    let mut count: u32 = 0;
    proof {
        vstd::arithmetic::power2::lemma2_to64();
        bit_length_is_small(start as nat, 32);
    }
    while n > 0
        invariant
            start >= 1,
            count + bit_length(n as nat) == bit_length(start as nat),
            bit_length(start as nat) <= 32,
        decreases n,
    {
        n = n / 2;
        count = count + 1;
    }
    count
}

/// A side of an image after it was halved some times; it never becomes shorter than a pixel.
pub open spec fn side_at(side: u32, level: nat) -> nat
    decreases level,
{
    if level == 0 {
        side as nat
    } else {
        let before = side_at(side, (level - 1) as nat);
        if before / 2 >= 1 {
            before / 2
        } else {
            1
        }
    }
}

/// Half of a side, but a pixel at least.
pub fn half_side(side: u32) -> (r: u32)
    ensures
        r == (if side / 2 >= 1 {
            side / 2
        } else {
            1
        }),
{
    if side / 2 >= 1 {
        side / 2
    } else {
        1
    }
}

/// Sides are no longer after they were halved.
proof fn sides_shrink(side: u32, level: nat)
    requires
        side >= 1,
    ensures
        1 <= side_at(side, level) <= side,
    decreases level,
{
    if level > 0 {
        sides_shrink(side, (level - 1) as nat);
    }
}

/// The sizes of an image, from its own down.
pub fn mip_sizes(width: u32, height: u32) -> (r: Vec<(u32, u32)>)
    requires
        width >= 1,
        height >= 1,
    ensures
        r@.len() == mip_count_spec(larger(width, height)),
        forall|k: int|
            0 <= k < r@.len() ==> (#[trigger] r@[k]).0 == side_at(width, k as nat) && r@[k].1
                == side_at(height, k as nat),
{
    let count: u32 = mip_count_for(if width >= height {
        width
    } else {
        height
    });
    let mut out: Vec<(u32, u32)> = Vec::new();
    let mut w: u32 = width;
    let mut h: u32 = height;
    let mut level: u32 = 0;
    while level < count
        invariant
            level <= count,
            out@.len() == level,
            w == side_at(width, level as nat),
            h == side_at(height, level as nat),
            forall|k: int|
                0 <= k < out@.len() ==> (#[trigger] out@[k]).0 == side_at(width, k as nat)
                    && out@[k].1 == side_at(height, k as nat),
        decreases count - level,
    {
        out.push((w, h));
        w = half_side(w);
        h = half_side(h);
        level = level + 1;
    }
    out
}

/// Halving a side as often as it has digits, but for one, leaves a single pixel.
proof fn side_ends_at_one(side: u32, level: nat)
    requires
        side >= 1,
        bit_length(side as nat) <= level + 1,
    ensures
        side_at(side, level) == 1,
    decreases level,
{
    if side == 1 {
        one_stays_one(level);
    } else {
        let half = (side / 2) as u32;
        assert(bit_length(side as nat) == 1 + bit_length(half as nat));
        assert(bit_length(half as nat) >= 1);
        side_ends_at_one(half, (level - 1) as nat);
        halved_first(side, (level - 1) as nat);
    }
}

/// A single pixel stays one.
proof fn one_stays_one(level: nat)
    ensures
        side_at(1, level) == 1,
    decreases level,
{
    if level > 0 {
        one_stays_one((level - 1) as nat);
    }
}

/// It does not matter whether the first halving or the last one is counted apart.
proof fn halved_first(side: u32, level: nat)
    requires
        side >= 2,
    ensures
        side_at(side, level + 1) == side_at((side / 2) as u32, level),
    decreases level,
{
    if level == 0 {
        assert(side_at(side, 0) == side);
    } else {
        halved_first(side, (level - 1) as nat);
    }
}

/// The last size of an image is a single pixel.
pub proof fn sizes_end_at_one_pixel(width: u32, height: u32)
    requires
        width >= 1,
        height >= 1,
    ensures
        ({
            let last = (mip_count_spec(larger(width, height)) - 1) as nat;
            side_at(width, last) == 1 && side_at(height, last) == 1
        }),
{
    let top = larger(width, height);
    longer_sides_have_more_digits(width as nat, top as nat);
    longer_sides_have_more_digits(height as nat, top as nat);
    let last = (mip_count_spec(top) - 1) as nat;
    side_ends_at_one(width, last);
    side_ends_at_one(height, last);
}

/// A larger number has no fewer digits.
proof fn longer_sides_have_more_digits(a: nat, b: nat)
    requires
        a <= b,
    ensures
        bit_length(a) <= bit_length(b),
    decreases b,
{
    if a > 0 {
        longer_sides_have_more_digits(a / 2, b / 2);
    }
}

/// The place of a pixel in an image, row by row.
pub open spec fn pixel_at(x: int, y: int, w: int) -> int {
    y * w + x
}

/// The pixel to the right of or below another, but within the image.
pub open spec fn next_within(at: int, side: int) -> int {
    if at + 1 <= side - 1 {
        at + 1
    } else {
        side - 1
    }
}

/// The four pixels of an image that become one pixel of the next size: a square of four, or
/// fewer where the image ends.
pub open spec fn sources_of(x: int, y: int, w: int, h: int) -> Seq<int> {
    let right = next_within(2 * x, w);
    let below = next_within(2 * y, h);
    seq![
        pixel_at(2 * x, 2 * y, w),
        pixel_at(right, 2 * y, w),
        pixel_at(2 * x, below, w),
        pixel_at(right, below, w),
    ]
}

/// The four pixels of an image that become one pixel of the next size.
pub fn mip_sources(x: u32, y: u32, prev_w: u32, prev_h: u32) -> (r: [usize; 4])
    requires
        2 * x < prev_w,
        2 * y < prev_h,
        prev_w * prev_h <= u32::MAX,
    ensures
        forall|k: int|
            0 <= k < 4 ==> #[trigger] r@[k] == sources_of(
                x as int,
                y as int,
                prev_w as int,
                prev_h as int,
            )[k],
        forall|k: int| 0 <= k < 4 ==> #[trigger] r@[k] < prev_w * prev_h,
{
    let x0: u32 = x * 2;
    let y0: u32 = y * 2;
    let x1: u32 = if x0 + 1 < prev_w {
        x0 + 1
    } else {
        prev_w - 1
    };
    let y1: u32 = if y0 + 1 < prev_h {
        y0 + 1
    } else {
        prev_h - 1
    };
    proof {
        lies_within(x0 as int, y0 as int, prev_w as int, prev_h as int);
        lies_within(x1 as int, y0 as int, prev_w as int, prev_h as int);
        lies_within(x0 as int, y1 as int, prev_w as int, prev_h as int);
        lies_within(x1 as int, y1 as int, prev_w as int, prev_h as int);
    }
    let a: usize = (y0 * prev_w + x0) as usize;
    let b: usize = (y0 * prev_w + x1) as usize;
    let c: usize = (y1 * prev_w + x0) as usize;
    let d: usize = (y1 * prev_w + x1) as usize;
    [a, b, c, d]
}

/// A pixel within the sides of an image lies within its pixels.
proof fn lies_within(x: int, y: int, w: int, h: int)
    requires
        0 <= x < w,
        0 <= y < h,
    ensures
        0 <= y * w <= y * w + x < w * h,
{
    assert(0 <= y * w && y * w + x < w * h) by (nonlinear_arith)
        requires
            0 <= x < w,
            0 <= y < h,
    ;
}

/// Every pixel of the next size has four pixels to be made from, unless a side is a single
/// pixel: then the next size keeps it, and its first pixel is there too.
pub proof fn next_size_has_sources(side: u32, at: u32)
    requires
        side >= 1,
        at < (if side / 2 >= 1 {
            side / 2
        } else {
            1
        }),
    ensures
        2 * at < side,
{
}

/// For each pixel of the next size, row by row, the four pixels that it is made from.
pub fn mip_plan(prev_w: u32, prev_h: u32) -> (r: Vec<[usize; 4]>)
    requires
        prev_w >= 1,
        prev_h >= 1,
        prev_w * prev_h <= u32::MAX,
    ensures
        ({
            let w = side_at(prev_w, 1);
            let h = side_at(prev_h, 1);
            &&& r@.len() == w * h
            &&& forall|i: int, k: int|
                #![trigger r@[i]@[k]]
                0 <= i < r@.len() && 0 <= k < 4 ==> r@[i]@[k] == sources_of(
                    i % (w as int),
                    i / (w as int),
                    prev_w as int,
                    prev_h as int,
                )[k] && r@[i]@[k] < prev_w * prev_h
        }),
{
    let w: u32 = half_side(prev_w);
    let h: u32 = half_side(prev_h);
    proof {
        reveal_with_fuel(side_at, 2);
        assert(w * h <= prev_w * prev_h) by (nonlinear_arith)
            requires
                w <= prev_w,
                h <= prev_h,
        ;
    }
    let total: u32 = w * h;
    let mut out: Vec<[usize; 4]> = Vec::new();
    let mut i: u32 = 0;
    while i < total
        invariant
            i <= total == w * h,
            w >= 1,
            w == (if prev_w / 2 >= 1 {
                prev_w / 2
            } else {
                1
            }),
            h == (if prev_h / 2 >= 1 {
                prev_h / 2
            } else {
                1
            }),
            prev_w >= 1,
            prev_h >= 1,
            prev_w * prev_h <= u32::MAX,
            out@.len() == i,
            forall|j: int, k: int|
                #![trigger out@[j]@[k]]
                0 <= j < out@.len() && 0 <= k < 4 ==> out@[j]@[k] == sources_of(
                    j % (w as int),
                    j / (w as int),
                    prev_w as int,
                    prev_h as int,
                )[k] && out@[j]@[k] < prev_w * prev_h,
        decreases total - i,
    {
        let x: u32 = i % w;
        let y: u32 = i / w;
        proof {
            assert(y < h) by (nonlinear_arith)
                requires
                    y == i / w,
                    i < w * h,
                    w >= 1,
            ;
            next_size_has_sources(prev_w, x);
            next_size_has_sources(prev_h, y);
        }
        out.push(mip_sources(x, y, prev_w, prev_h));
        i = i + 1;
    }
    out
}

/// Whether a file is an environment image.
pub open spec fn is_hdr(path: Seq<char>) -> bool {
    match extension(path) {
        Some(e) => lower(e) == lower("hdr"@) || lower(e) == lower("exr"@),
        None => false,
    }
}

/// Whether a file is an environment image.
pub fn is_hdr_file(path: &str) -> (r: bool)
    ensures
        r == is_hdr(path@),
{
    match extension_of_path(path) {
        Some(e) => same_ignoring_case(e.as_str(), "hdr") || same_ignoring_case(e.as_str(), "exr"),
        None => false,
    }
}

/// The name under which an environment image is listed.
pub fn hdri_name(path: &str) -> (r: String)
    ensures
        r@ == stem_or(path@, "hdri"@),
{
    stem_of_or(path, "hdri")
}

/// The environment images among the first `n` files.
pub open spec fn hdr_paths(paths: Seq<Seq<char>>, n: nat) -> Seq<Seq<char>>
    decreases n,
{
    if n == 0 {
        Seq::empty()
    } else {
        let front = hdr_paths(paths, (n - 1) as nat);
        if is_hdr(paths[n - 1]) {
            front.push(paths[n - 1])
        } else {
            front
        }
    }
}

/// The environment images of a folder, by name.
pub fn bundled_hdris(paths: &Vec<String>) -> (r: Vec<(String, String)>)
    ensures
        lists_by_stem(r@, hdr_paths(views(paths@), paths@.len()), "hdri"@),
{
    let ghost all = views(paths@);
    let mut found: Vec<String> = Vec::new();
    let mut i: usize = 0;
    proof {
        assert(views(found@) =~= hdr_paths(all, 0));
    }
    while i < paths.len()
        invariant
            i <= paths@.len(),
            all == views(paths@),
            views(found@) == hdr_paths(all, i as nat),
        decreases paths@.len() - i,
    {
        let path = paths[i].as_str();
        let ghost before = found@;
        if is_hdr_file(path) {
            found.push(String::from_str(path));
            proof {
                assert(views(found@) =~= views(before).push(path@));
            }
        }
        i = i + 1;
    }
    list_by_stem(&found, "hdri")
}

/// A pixel of the next size is made from the four pixels under it: two columns and two rows of
/// the larger image; where that ends, its last column or row counts twice.
pub proof fn four_pixels_become_one(x: int, y: int, w: int, h: int)
    requires
        0 <= x,
        0 <= y,
        2 * x < w,
        2 * y < h,
    ensures
        ({
            let s = sources_of(x, y, w, h);
            let right = if 2 * x + 1 < w {
                2 * x + 1
            } else {
                2 * x
            };
            let below = if 2 * y + 1 < h {
                2 * y + 1
            } else {
                2 * y
            };
            &&& s.len() == 4
            &&& s[0] == 2 * y * w + 2 * x
            &&& s[1] == 2 * y * w + right
            &&& s[2] == below * w + 2 * x
            &&& s[3] == below * w + right
        }),
{
}

} // verus!
