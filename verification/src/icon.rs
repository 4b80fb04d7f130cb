//! The icon rasterizer: resamples a decoded source image to the six fixed
//! icon sizes, applies anti-aliased rounded-corner masking, and bundles the
//! results into a multi-resolution icon container.
//!
//! The masking pass is exact integer arithmetic throughout. A pixel in a
//! corner square is compared against the corner's circular boundary by
//! squared distance; a pixel within one and a half pixels of the boundary
//! keeps a distance-interpolated share of its alpha. The share
//! `(radius - distance) / 1.5 * 255` equals `170 * radius - sqrt(28900 * d2)`
//! where `d2` is the squared distance, so its floor is computed with an
//! integer ceiling square root and no rounding of any kind is left open.

use base64::Engine;
use vstd::prelude::*;

verus! {

/// The fixed, descending icon sizes.
pub open spec fn spec_icon_size(i: int) -> u32 {
    if i == 0 {
        256
    } else if i == 1 {
        128
    } else if i == 2 {
        64
    } else if i == 3 {
        48
    } else if i == 4 {
        32
    } else {
        16
    }
}

/// The fixed icon size at position `i`.
pub fn icon_size(i: usize) -> (s: u32)
    requires
        i < 6,
    ensures
        s == spec_icon_size(i as int),
        1 <= s <= 256,
{
    if i == 0 {
        256
    } else if i == 1 {
        128
    } else if i == 2 {
        64
    } else if i == 3 {
        48
    } else if i == 4 {
        32
    } else {
        16
    }
}

/// The corner radius in pixels for a raster of `width` by `height` and a
/// radius percentage.
pub open spec fn spec_corner_radius(width: int, height: int, radius_percent: int) -> int {
    (if width <= height {
        width
    } else {
        height
    }) * radius_percent / 100
}

/// Whether pixel (`x`, `y`) lies in one of the four corner squares of side
/// `radius`.
pub open spec fn spec_in_corner(x: int, y: int, width: int, height: int, radius: int) -> bool {
    ||| (x < radius && y < radius)
    ||| (x >= width - radius && y < radius)
    ||| (x < radius && y >= height - radius)
    ||| (x >= width - radius && y >= height - radius)
}

/// The circular center of the corner square that pixel (`x`, `y`) falls in
/// (the bottom-right center for a pixel in no corner).
pub open spec fn spec_corner_center(x: int, y: int, width: int, height: int, radius: int) -> (
    int,
    int,
) {
    if x < radius && y < radius {
        (radius, radius)
    } else if x >= width - radius && y < radius {
        (width - radius, radius)
    } else if x < radius && y >= height - radius {
        (radius, height - radius)
    } else {
        (width - radius, height - radius)
    }
}

/// Whether pixel (`x`, `y`) lies in one of the four corner squares.
pub fn is_in_rounded_corner(x: u32, y: u32, width: u32, height: u32, radius: u32) -> (r: bool)
    requires
        radius <= width,
        radius <= height,
    ensures
        r == spec_in_corner(x as int, y as int, width as int, height as int, radius as int),
{
    if x < radius && y < radius {
        return true;
    }
    if x >= width - radius && y < radius {
        return true;
    }
    if x < radius && y >= height - radius {
        return true;
    }
    if x >= width - radius && y >= height - radius {
        return true;
    }
    false
}

/// The circular center of the corner square that pixel (`x`, `y`) falls in.
pub fn get_corner_center(x: u32, y: u32, width: u32, height: u32, radius: u32) -> (c: (
    u32,
    u32,
))
    requires
        radius <= width,
        radius <= height,
    ensures
        (c.0 as int, c.1 as int) == spec_corner_center(
            x as int,
            y as int,
            width as int,
            height as int,
            radius as int,
        ),
{
    if x < radius && y < radius {
        (radius, radius)
    } else if x >= width - radius && y < radius {
        (width - radius, radius)
    } else if x < radius && y >= height - radius {
        (radius, height - radius)
    } else {
        (width - radius, height - radius)
    }
}

/// The integer square root, rounded down.
pub open spec fn spec_isqrt(n: nat) -> nat
    decreases n,
{
    if n == 0 {
        0
    } else {
        let s = spec_isqrt((n - 1) as nat);
        if (s + 1) * (s + 1) <= n {
            s + 1
        } else {
            s
        }
    }
}

/// `spec_isqrt` is the rounded-down square root.
pub proof fn lemma_isqrt_bounds(n: nat)
    ensures
        spec_isqrt(n) * spec_isqrt(n) <= n,
        n < (spec_isqrt(n) + 1) * (spec_isqrt(n) + 1),
    decreases n,
{
    if n > 0 {
        lemma_isqrt_bounds((n - 1) as nat);
        let s = spec_isqrt((n - 1) as nat);
        assert(spec_isqrt(n) == if (s + 1) * (s + 1) <= n {
            s + 1
        } else {
            s
        });
        if (s + 1) * (s + 1) <= n {
            assert(n - 1 < (s + 1) * (s + 1));
            assert(n == (s + 1) * (s + 1));
            assert((s + 1) * (s + 1) < (s + 2) * (s + 2)) by (nonlinear_arith);
            assert(spec_isqrt(n) == s + 1);
            assert(spec_isqrt(n) * spec_isqrt(n) == (s + 1) * (s + 1));
        } else {
            assert(spec_isqrt(n) == s);
            assert(s * s <= n - 1);
        }
        assert(spec_isqrt(n) * spec_isqrt(n) <= n);
        assert(n < (spec_isqrt(n) + 1) * (spec_isqrt(n) + 1));
    } else {
        assert(n == 0);
        assert(spec_isqrt(n) == 0);
        assert(spec_isqrt(n) * spec_isqrt(n) <= n) by (nonlinear_arith)
            requires
                n == 0,
                spec_isqrt(n) == 0,
        ;
        assert(n < (spec_isqrt(n) + 1) * (spec_isqrt(n) + 1)) by (nonlinear_arith)
            requires
                n == 0,
                spec_isqrt(n) == 0,
        ;
    }
}

/// Any value whose square bounds `n` on both sides is `spec_isqrt(n)`.
proof fn lemma_isqrt_unique(n: nat, r: nat)
    requires
        r * r <= n,
        n < (r + 1) * (r + 1),
    ensures
        r == spec_isqrt(n),
{
    lemma_isqrt_bounds(n);
    let s = spec_isqrt(n);
    if r < s {
        assert((r + 1) * (r + 1) <= s * s) by (nonlinear_arith)
            requires r + 1 <= s;
        assert(false);
    }
    if s < r {
        assert((s + 1) * (s + 1) <= r * r) by (nonlinear_arith)
            requires s + 1 <= r;
        assert(false);
    }
}

/// The integer square root, rounded up.
pub open spec fn spec_ceil_sqrt(n: nat) -> nat {
    let s = spec_isqrt(n);
    if s * s == n {
        s
    } else {
        s + 1
    }
}

/// The rounded-up square root squares to at least `n`, and any `a` with
/// `a * a >= n` is at least the rounded-up square root.
proof fn lemma_ceil_sqrt_le(n: nat, a: nat)
    requires
        a * a >= n,
    ensures
        spec_ceil_sqrt(n) <= a,
{
    lemma_isqrt_bounds(n);
    let s = spec_isqrt(n);
    if s * s == n {
        if a < s {
            assert(a * a < s * s) by (nonlinear_arith)
                requires a < s;
            assert(false);
        }
    } else {
        if a < s + 1 {
            assert(a * a <= s * s) by (nonlinear_arith)
                requires a <= s;
            assert(false);
        }
    }
}

/// The rounded-up square root squares to at least `n`.
proof fn lemma_ceil_sqrt_sq_ge(n: nat)
    ensures
        spec_ceil_sqrt(n) * spec_ceil_sqrt(n) >= n,
{
    lemma_isqrt_bounds(n);
}

/// The integer square root of `n`, rounded down.
pub fn isqrt_u64(n: u64) -> (r: u64)
    ensures
        r as nat == spec_isqrt(n as nat),
        r * r <= n,
{
    let mut lo: u64 = 0;
    let mut hi: u64 = 4294967296;
    proof {
        assert((hi as int) * (hi as int) > n as int) by (nonlinear_arith)
            requires hi == 4294967296u64 && n <= u64::MAX;
    }
    while lo + 1 < hi
        invariant
            lo < hi <= 4294967296,
            (lo as int) * (lo as int) <= n as int,
            (hi as int) * (hi as int) > n as int,
        decreases hi - lo,
    {
        let mid = lo + (hi - lo) / 2;
        proof {
            assert(mid < hi);
            assert((mid as int) * (mid as int) < 18446744073709551616) by (nonlinear_arith)
                requires mid < 4294967296u64;
        }
        if mid * mid <= n {
            lo = mid;
        } else {
            hi = mid;
        }
    }
    proof {
        assert(hi == lo + 1);
        lemma_isqrt_unique(n as nat, lo as nat);
    }
    lo
}

/// The integer square root of `n`, rounded up.
pub fn ceil_sqrt_u64(n: u64) -> (r: u64)
    requires
        n < 0x8000_0000_0000_0000,
    ensures
        r as nat == spec_ceil_sqrt(n as nat),
{
    let s = isqrt_u64(n);
    proof {
        lemma_isqrt_bounds(n as nat);
        assert((s as int) + 1 <= 4294967296) by (nonlinear_arith)
            requires
                (s as int) * (s as int) <= n as int,
                n < 0x8000_0000_0000_0000u64,
        ;
    }
    if s * s == n {
        s
    } else {
        s + 1
    }
}

/// The distance-interpolated alpha share of a boundary pixel: the floor of
/// `(radius - distance) * 255 / 1.5` for squared distance `d2`.
pub open spec fn spec_band_alpha(radius: int, d2: int) -> int {
    170 * radius - spec_ceil_sqrt((28900 * d2) as nat)
}

/// One byte of the masked raster: fully transparent outside the corner
/// circle, alpha scaled within one and a half pixels of the boundary,
/// untouched elsewhere.
pub open spec fn spec_masked_byte(
    data: Seq<u8>,
    width: int,
    height: int,
    radius: int,
    i: int,
) -> u8 {
    let p = i / 4;
    let ch = i % 4;
    let x = p % width;
    let y = p / width;
    if spec_in_corner(x, y, width, height, radius) {
        let c = spec_corner_center(x, y, width, height, radius);
        let dx = x - c.0;
        let dy = y - c.1;
        let d2 = dx * dx + dy * dy;
        if d2 > radius * radius {
            0u8
        } else if 2 * radius < 3 || 4 * d2 > (2 * radius - 3) * (2 * radius - 3) {
            if ch == 3 {
                ((data[i] as int) * spec_band_alpha(radius, d2) / 255) as u8
            } else {
                data[i]
            }
        } else {
            data[i]
        }
    } else {
        data[i]
    }
}

/// The rounded-corner mask applied to a whole RGBA raster. With a radius of
/// zero pixels the raster is returned unchanged.
pub open spec fn spec_apply_mask(
    data: Seq<u8>,
    width: int,
    height: int,
    radius_percent: int,
) -> Seq<u8> {
    let radius = spec_corner_radius(width, height, radius_percent);
    if radius == 0 {
        data
    } else {
        Seq::new(data.len(), |i: int| spec_masked_byte(data, width, height, radius, i))
    }
}

/// A radius percentage of zero leaves every raster unchanged: the masking
/// pass is not applied.
pub proof fn lemma_mask_radius_zero(data: Seq<u8>, width: int, height: int)
    ensures
        spec_apply_mask(data, width, height, 0) == data,
{
}

/// Splits a byte index into its pixel and channel, and the pixel into its
/// coordinates.
proof fn lemma_byte_coords(p: int, k: int, x: int, y: int, width: int)
    requires
        width >= 1,
        0 <= k < 4,
        0 <= x < width,
        0 <= y,
        p == y * width + x,
    ensures
        (4 * p + k) / 4 == p,
        (4 * p + k) % 4 == k,
        p % width == x,
        p / width == y,
{
    vstd::arithmetic::div_mod::lemma_fundamental_div_mod_converse(4 * p + k, 4, p, k);
    vstd::arithmetic::div_mod::lemma_fundamental_div_mod_converse(p, width, y, x);
}

/// Bounds on the interpolated alpha share of a boundary pixel.
proof fn lemma_band_alpha_bounds(radius: int, d2: int)
    requires
        1 <= radius <= 1024,
        0 <= d2,
        d2 <= radius * radius,
        2 * radius < 3 || 4 * d2 > (2 * radius - 3) * (2 * radius - 3),
    ensures
        spec_ceil_sqrt((28900 * d2) as nat) <= 170 * radius,
        0 <= spec_band_alpha(radius, d2) < 256,
{
    let t = (28900 * d2) as nat;
    assert((170 * radius) * (170 * radius) >= 28900 * d2) by (nonlinear_arith)
        requires
            d2 <= radius * radius,
            0 <= d2,
            radius >= 1,
    ;
    lemma_ceil_sqrt_le(t, (170 * radius) as nat);
    let c = spec_ceil_sqrt(t) as int;
    if 2 * radius < 3 {
        assert(radius == 1);
        assert(spec_band_alpha(radius, d2) == 170 - c);
    } else {
        lemma_ceil_sqrt_sq_ge(t);
        let q = 2 * radius - 3;
        assert(28900 * d2 > 7225 * (q * q)) by (nonlinear_arith)
            requires
                4 * d2 > q * q,
        ;
        assert(c > 85 * q) by (nonlinear_arith)
            requires
                c >= 0,
                q >= 0,
                c * c >= 28900 * d2,
                28900 * d2 > 7225 * (q * q),
        ;
        assert(85 * q == 170 * radius - 255);
    }
}

/// Applies the rounded-corner mask to an RGBA raster in place, exactly as
/// `spec_apply_mask` describes.
pub fn apply_rounded_corners(img: &mut Vec<u8>, width: u32, height: u32, radius_percent: u32)
    requires
        1 <= width <= 1024,
        1 <= height <= 1024,
        radius_percent <= 50,
        old(img)@.len() == 4 * width * height,
    ensures
        final(img)@ == spec_apply_mask(
            old(img)@,
            width as int,
            height as int,
            radius_percent as int,
        ),
{
    let m: u32 = if width <= height {
        width
    } else {
        height
    };
    proof {
        assert((m as int) * (radius_percent as int) <= 51200) by (nonlinear_arith)
            requires
                m <= 1024,
                radius_percent <= 50,
        ;
    }
    let radius: u32 = m * radius_percent / 100;
    proof {
        assert(radius == spec_corner_radius(
            width as int,
            height as int,
            radius_percent as int,
        ));
    }
    if radius == 0 {
        return ;
    }
    let ghost orig = img@;
    let ghost w = width as int;
    let ghost h = height as int;
    let ghost rad = radius as int;
    let ghost masked = spec_apply_mask(orig, w, h, radius_percent as int);
    proof {
        assert(radius <= width && radius <= height) by (nonlinear_arith)
            requires
                radius == (if width <= height {
                    width as int
                } else {
                    height as int
                }) * radius_percent / 100,
                radius_percent <= 50,
                1 <= width <= 1024,
                1 <= height <= 1024,
        ;
    }
    let mut y: u32 = 0;
    while y < height
        invariant
            1 <= width <= 1024,
            1 <= height <= 1024,
            radius_percent <= 50,
            1 <= radius <= width,
            radius <= height,
            w == width as int,
            h == height as int,
            rad == radius as int,
            rad == spec_corner_radius(w, h, radius_percent as int),
            0 <= y <= height,
            img@.len() == orig.len(),
            orig.len() == 4 * w * h,
            forall|i: int|
                0 <= i < orig.len() ==> img@[i] == (if i < 4 * (y * w) {
                    spec_masked_byte(orig, w, h, rad, i)
                } else {
                    orig[i]
                }),
        decreases height - y,
    {
        let mut x: u32 = 0;
        proof {
            assert(4 * ((y * w) + 0) == 4 * (y * w));
        }
        while x < width
            invariant
                1 <= width <= 1024,
                1 <= height <= 1024,
                radius_percent <= 50,
                1 <= radius <= width,
                radius <= height,
                w == width as int,
                h == height as int,
                rad == radius as int,
                rad == spec_corner_radius(w, h, radius_percent as int),
                0 <= y < height,
                0 <= x <= width,
                img@.len() == orig.len(),
                orig.len() == 4 * w * h,
                forall|i: int|
                    0 <= i < orig.len() ==> img@[i] == (if i < 4 * (y * w + x) {
                        spec_masked_byte(orig, w, h, rad, i)
                    } else {
                        orig[i]
                    }),
            decreases width - x,
        {
            proof {
                assert(0 <= (y as int) * w + (x as int) < w * h && w * h <= 1048576)
                    by (nonlinear_arith)
                    requires
                        0 <= (x as int) < w,
                        0 <= (y as int) < h,
                        w <= 1024,
                        h <= 1024,
                ;
            }
            let p: usize = (y as usize) * (width as usize) + (x as usize);
            let idx: usize = 4 * p;
            proof {
                assert(idx + 3 < orig.len()) by (nonlinear_arith)
                    requires
                        idx == 4 * ((y as int) * w + (x as int)),
                        orig.len() == 4 * w * h,
                        (y as int) * w + (x as int) < w * h,
                ;
            }
            let in_c = is_in_rounded_corner(x, y, width, height, radius);
            if in_c {
                let c = get_corner_center(x, y, width, height, radius);
                proof {
                    assert(c.0 <= 1024 && c.1 <= 1024);
                    assert(((x as int) - (c.0 as int)) * ((x as int) - (c.0 as int))
                        <= 1048576) by (nonlinear_arith)
                        requires
                            -1024 <= (x as int) - (c.0 as int) <= 1024,
                    ;
                    assert(((y as int) - (c.1 as int)) * ((y as int) - (c.1 as int))
                        <= 1048576) by (nonlinear_arith)
                        requires
                            -1024 <= (y as int) - (c.1 as int) <= 1024,
                    ;
                    assert(((x as int) - (c.0 as int)) * ((x as int) - (c.0 as int)) >= 0)
                        by (nonlinear_arith);
                    assert(((y as int) - (c.1 as int)) * ((y as int) - (c.1 as int)) >= 0)
                        by (nonlinear_arith);
                    assert((radius as int) * (radius as int) <= 1048576)
                        by (nonlinear_arith)
                        requires
                            radius <= 1024,
                    ;
                }
                let dx: i64 = x as i64 - c.0 as i64;
                let dy: i64 = y as i64 - c.1 as i64;
                let d2: i64 = dx * dx + dy * dy;
                let r2: i64 = (radius as i64) * (radius as i64);
                if d2 > r2 {
                    img.set(idx, 0);
                    img.set(idx + 1, 0);
                    img.set(idx + 2, 0);
                    img.set(idx + 3, 0);
                } else {
                    let band = if 2 * (radius as i64) < 3 {
                        true
                    } else {
                        let q: i64 = 2 * (radius as i64) - 3;
                        proof {
                            assert((q as int) * (q as int) <= 4194304) by (nonlinear_arith)
                                requires
                                    0 <= (q as int) <= 2045,
                            ;
                        }
                        4 * d2 > q * q
                    };
                    if band {
                        proof {
                            lemma_band_alpha_bounds(rad, d2 as int);
                            assert(28900 * (d2 as int) <= 0x7fff_ffff_ffff_ffff)
                                by (nonlinear_arith)
                                requires
                                    0 <= (d2 as int) <= 2097152,
                            ;
                        }
                        let t: u64 = 28900u64 * (d2 as u64);
                        let cs = ceil_sqrt_u64(t);
                        let alpha: u64 = 170u64 * (radius as u64) - cs;
                        let olda: u8 = img[idx + 3];
                        proof {
                            assert((olda as int) * (alpha as int) <= 255 * 255)
                                by (nonlinear_arith)
                                requires
                                    olda <= 255,
                                    0 <= alpha < 256,
                            ;
                        }
                        let na: u64 = (olda as u64) * alpha / 255;
                        img.set(idx + 3, na as u8);
                    }
                }
            }
            proof {
                let pp = y * w + x;
                assert forall|k: int| 0 <= k < 4 implies img@[4 * pp + k] == #[trigger] spec_masked_byte(
                    orig,
                    w,
                    h,
                    rad,
                    4 * pp + k,
                ) by {
                    lemma_byte_coords(pp, k, x as int, y as int, w);
                }
                assert forall|i: int|
                    0 <= i < orig.len() implies img@[i] == (if i < 4 * (y * w + x + 1) {
                    spec_masked_byte(orig, w, h, rad, i)
                } else {
                    orig[i]
                }) by {
                    if 4 * pp <= i < 4 * pp + 4 {
                        assert(img@[i] == spec_masked_byte(orig, w, h, rad, i)) by {
                            assert(i == 4 * pp + (i - 4 * pp));
                        }
                    }
                }
            }
            x += 1;
        }
        proof {
            assert(4 * (y * w + w) == 4 * ((y + 1) * w)) by (nonlinear_arith);
        }
        y += 1;
    }
    proof {
        assert(img@ =~= Seq::new(
            orig.len(),
            |i: int| spec_masked_byte(orig, w, h, rad, i),
        )) by {
            assert forall|i: int| 0 <= i < orig.len() implies img@[i] == spec_masked_byte(
                orig,
                w,
                h,
                rad,
                i,
            ) by {
                assert(i < 4 * (h * w)) by (nonlinear_arith)
                    requires
                        i < 4 * w * h,
                ;
            }
        }
    }
}

/// With the maximal radius share on a square raster of side at least eight,
/// the four outermost corner pixels of the masked raster are fully
/// transparent.
pub proof fn lemma_full_radius_corners_transparent(data: Seq<u8>, s: int)
    requires
        8 <= s <= 1024,
        data.len() == 4 * s * s,
    ensures
        forall|i: int| 0 <= i < 4 ==> #[trigger] spec_apply_mask(data, s, s, 50)[i] == 0,
        forall|i: int|
            4 * (s - 1) <= i < 4 * (s - 1) + 4 ==> #[trigger] spec_apply_mask(
                data,
                s,
                s,
                50,
            )[i] == 0,
        forall|i: int|
            4 * ((s - 1) * s) <= i < 4 * ((s - 1) * s) + 4 ==> #[trigger] spec_apply_mask(
                data,
                s,
                s,
                50,
            )[i] == 0,
        forall|i: int|
            4 * ((s - 1) * s + (s - 1)) <= i < 4 * ((s - 1) * s + (s - 1)) + 4
                ==> #[trigger] spec_apply_mask(data, s, s, 50)[i] == 0,
{
    let r = spec_corner_radius(s, s, 50);
    assert(r == s / 2) by {
        vstd::arithmetic::div_mod::lemma_fundamental_div_mod(s, 2);
        vstd::arithmetic::div_mod::lemma_fundamental_div_mod_converse(
            s * 50,
            100,
            s / 2,
            (s % 2) * 50,
        );
    }
    assert(4 <= r && 2 * r <= s) by {
        vstd::arithmetic::div_mod::lemma_fundamental_div_mod(s, 2);
    }
    assert(4 * s * s == 4 * (s * s)) by (nonlinear_arith);
    assert(data.len() == 4 * (s * s));
    assert(s * s >= (s - 1) * s + (s - 1) + 1 && s * s >= 64) by (nonlinear_arith)
        requires
            s >= 8,
    ;
    let masked = spec_apply_mask(data, s, s, 50);
    assert(r != 0);
    assert forall|i: int| 0 <= i < 4 implies masked[i] == 0 by {
        let k = i;
        lemma_byte_coords(0, k, 0, 0, s);
        assert(masked[i] == spec_masked_byte(data, s, s, r, i));
        assert(i / 4 == 0);
        assert(i % 4 == k);
        assert((i / 4) % s == 0);
        assert((i / 4) / s == 0);
        assert(spec_in_corner(0, 0, s, s, r));
        assert(spec_corner_center(0, 0, s, s, r) == (r, r));
        assert(r * r + r * r > r * r) by (nonlinear_arith)
            requires
                r >= 1,
        ;
        assert((0 - r) * (0 - r) == r * r) by (nonlinear_arith);
    }
    assert forall|i: int| 4 * (s - 1) <= i < 4 * (s - 1) + 4 implies masked[i] == 0 by {
        let k = i - 4 * (s - 1);
        lemma_byte_coords(s - 1, k, s - 1, 0, s);
        assert(i < data.len()) by (nonlinear_arith)
            requires
                data.len() == 4 * (s * s),
                s >= 2,
                i < 4 * (s - 1) + 4,
        ;
        assert(s - 1 >= s - r);
        assert(s - 1 >= r);
        assert(spec_corner_center(s - 1, 0, s, s, r) == (s - r, r));
        let dx = (s - 1) - (s - r);
        assert(dx == r - 1);
        assert((r - 1) * (r - 1) + (0 - r) * (0 - r) > r * r) by (nonlinear_arith)
            requires
                r >= 2,
        ;
    }
    assert forall|i: int|
        4 * ((s - 1) * s) <= i < 4 * ((s - 1) * s) + 4 implies masked[i] == 0 by {
        let k = i - 4 * ((s - 1) * s);
        lemma_byte_coords((s - 1) * s, k, 0, s - 1, s);
        assert(i < data.len()) by (nonlinear_arith)
            requires
                data.len() == 4 * (s * s),
                s >= 2,
                i < 4 * ((s - 1) * s) + 4,
        ;
        assert(s - 1 >= s - r);
        assert(spec_corner_center(0, s - 1, s, s, r) == (r, s - r));
        assert((0 - r) * (0 - r) + ((s - 1) - (s - r)) * ((s - 1) - (s - r)) > r * r)
            by (nonlinear_arith)
            requires
                r >= 2,
        ;
    }
    assert forall|i: int|
        4 * ((s - 1) * s + (s - 1)) <= i < 4 * ((s - 1) * s + (s - 1)) + 4 implies masked[i]
        == 0 by {
        let k = i - 4 * ((s - 1) * s + (s - 1));
        lemma_byte_coords((s - 1) * s + (s - 1), k, s - 1, s - 1, s);
        assert(i < data.len()) by (nonlinear_arith)
            requires
                data.len() == 4 * (s * s),
                s >= 2,
                i < 4 * ((s - 1) * s + (s - 1)) + 4,
        ;
        assert(s - 1 >= s - r);
        assert(spec_corner_center(s - 1, s - 1, s, s, r) == (s - r, s - r));
        assert(((s - 1) - (s - r)) * ((s - 1) - (s - r)) + ((s - 1) - (s - r)) * ((s - 1) - (s
            - r)) > r * r) by (nonlinear_arith)
            requires
                r >= 4,
        ;
    }
}

/// What the standard base64 alphabet decodes a text to, if it decodes.
pub uninterp spec fn base64_decoded(s: Seq<char>) -> Option<Seq<u8>>;

/// Relies on base64's standard-alphabet engine `decode`: whether a text
/// decodes, and to which bytes, depends on its characters alone.
#[verifier::external_body]
fn decode_base64(s: &str) -> (r: Result<Vec<u8>, String>)
    ensures
        r is Ok <==> base64_decoded(s@) is Some,
        r matches Ok(v) ==> Some(v@) == base64_decoded(s@),
        r matches Err(m) ==> exists|rest: Seq<char>|
            m@ == "Failed to decode base64: "@ + rest,
{
    match base64::engine::general_purpose::STANDARD.decode(s) {
        Ok(v) => Ok(v),
        Err(e) => Err(format!("Failed to decode base64: {}", e)),
    }
}

/// Whether `image::load_from_memory` decodes these bytes.
pub uninterp spec fn image_decodable(bytes: Seq<u8>) -> bool;

/// The size-by-size RGBA raster that decoding and Lanczos3 resampling yield
/// for these bytes.
pub uninterp spec fn resized_rgba(bytes: Seq<u8>, size: u32) -> Seq<u8>;

/// Relies on `image::load_from_memory`, `DynamicImage::resize_exact` with
/// the Lanczos3 filter, and `DynamicImage::to_rgba8`: whether the bytes
/// decode, and the resampled raster, depend on the bytes and the size alone;
/// the raster holds exactly four bytes for each of size-by-size pixels.
#[verifier::external_body]
fn decode_and_resize(bytes: &Vec<u8>, size: u32) -> (r: Result<Vec<u8>, String>)
    requires
        1 <= size <= 256,
    ensures
        r is Ok <==> image_decodable(bytes@),
        r matches Ok(v) ==> v@ == resized_rgba(bytes@, size) && v@.len() == 4 * size * size,
        r matches Err(m) ==> exists|rest: Seq<char>| m@ == "Failed to load image: "@ + rest,
{
    match image::load_from_memory(bytes.as_slice()) {
        Ok(img) => Ok(
            img.resize_exact(size, size, image::imageops::FilterType::Lanczos3)
                .to_rgba8()
                .into_raw(),
        ),
        Err(e) => Err(format!("Failed to load image: {}", e)),
    }
}

#[verifier::external_type_specification]
#[verifier::external_body]
pub struct ExIconDir(ico::IconDir);

/// What an icon collection holds: the width, height and RGBA bytes of every
/// raster added to it, in order.
pub uninterp spec fn ico_contents(d: ico::IconDir) -> Seq<(u32, u32, Seq<u8>)>;

/// The serialized icon container for the given rasters: each raster is
/// encoded as a function of its dimensions and bytes alone, so the whole
/// container depends on the added rasters alone.
pub uninterp spec fn ico_serialized(entries: Seq<(u32, u32, Seq<u8>)>) -> Seq<u8>;

/// Relies on `ico::IconDir::new`: a fresh icon collection holding nothing.
#[verifier::external_body]
fn ico_dir_new() -> (r: ico::IconDir)
    ensures
        ico_contents(r) == Seq::<(u32, u32, Seq<u8>)>::empty(),
{
    ico::IconDir::new(ico::ResourceType::Icon)
}

/// Relies on `ico::IconImage::from_rgba_data` and `ico::IconDirEntry::encode`:
/// encodes one RGBA raster and adds the entry to the collection.
/// `from_rgba_data` panics unless the raster holds exactly `4*width*height`
/// bytes for nonzero dimensions; the `requires` rules that out. An image
/// without a cursor hotspot encodes to an icon entry, so `add_entry` cannot
/// panic on a resource-type mismatch with the icon collection. Encoding
/// writes PNG or BMP data into an in-memory buffer and is deterministic in
/// the raster; for a well-sized raster of these dimensions neither encoder
/// reports an error, so the call succeeds.
#[verifier::external_body]
fn ico_add_rgba(dir: &mut ico::IconDir, width: u32, height: u32, data: Vec<u8>) -> (r: Result<
    (),
    String,
>)
    requires
        1 <= width <= 256,
        1 <= height <= 256,
        data@.len() == 4 * width * height,
    ensures
        r is Ok,
        ico_contents(*final(dir)) == ico_contents(*old(dir)).push((width, height, data@)),
{
    let image = ico::IconImage::from_rgba_data(width, height, data);
    match ico::IconDirEntry::encode(&image) {
        Ok(entry) => {
            dir.add_entry(entry);
            Ok(())
        },
        Err(e) => Err(format!("Failed to encode icon: {}", e)),
    }
}

/// Relies on `ico::IconDir::write`: serialises the collection into an
/// in-memory buffer in the icon container layout. Writing into a byte
/// vector cannot fail, and the entry count stays far below the container's
/// sixteen-bit limit, so the call succeeds; the bytes written are a
/// function of the entries alone.
#[verifier::external_body]
fn ico_dir_bytes(dir: &ico::IconDir) -> (r: Result<Vec<u8>, String>)
    requires
        ico_contents(*dir).len() <= 65535,
    ensures
        r is Ok,
        r matches Ok(v) ==> v@ == ico_serialized(ico_contents(*dir)),
{
    let mut out: Vec<u8> = Vec::new();
    match dir.write(&mut out) {
        Ok(_) => Ok(out),
        Err(e) => Err(format!("Failed to write ico file: {}", e)),
    }
}

/// One RGBA raster per fixed size, in the fixed descending size order.
pub struct RenderedIcon {
    pub buffers: Vec<Vec<u8>>,
}

/// The raster rendered for size position `i`: the plain resample with the
/// rounded-corner mask applied.
pub open spec fn spec_rendered_buffer(bytes: Seq<u8>, radius_percent: int, i: int) -> Seq<
    u8,
> {
    let s = spec_icon_size(i) as int;
    spec_apply_mask(resized_rgba(bytes, spec_icon_size(i)), s, s, radius_percent)
}

/// With radius share zero, every rendered raster is exactly the plain
/// resample: the masking pass changes nothing.
pub proof fn lemma_rendered_radius_zero(bytes: Seq<u8>, i: int)
    ensures
        spec_rendered_buffer(bytes, 0, i) == resized_rgba(bytes, spec_icon_size(i)),
{
    let s = spec_icon_size(i) as int;
    lemma_mask_radius_zero(resized_rgba(bytes, spec_icon_size(i)), s, s);
}

/// Rasterizes decoded image bytes into the six fixed sizes, masking each
/// with the requested corner radius share. Succeeds exactly when the bytes
/// decode as an image; every success holds exactly six rasters.
pub fn rasterize_icon(bytes: &Vec<u8>, radius_percent: u32) -> (r: Result<RenderedIcon, String>)
    requires
        radius_percent <= 50,
    ensures
        r is Ok <==> image_decodable(bytes@),
        r matches Ok(icon) ==> icon.buffers@.len() == 6 && forall|i: int|
            0 <= i < 6 ==> (#[trigger] icon.buffers@[i])@ == spec_rendered_buffer(
                bytes@,
                radius_percent as int,
                i,
            ) && icon.buffers@[i]@.len() == 4 * spec_icon_size(i) * spec_icon_size(i),
        r matches Err(m) ==> exists|rest: Seq<char>|
            m@ == "Failed to load image: "@ + rest,
{
    let mut buffers: Vec<Vec<u8>> = Vec::new();
    let mut i: usize = 0;
    while i < 6
        invariant
            radius_percent <= 50,
            0 <= i <= 6,
            buffers@.len() == i,
            i > 0 ==> image_decodable(bytes@),
            forall|k: int|
                0 <= k < i ==> (#[trigger] buffers@[k])@ == spec_rendered_buffer(
                    bytes@,
                    radius_percent as int,
                    k,
                ) && buffers@[k]@.len() == 4 * spec_icon_size(k) * spec_icon_size(k),
        decreases 6 - i,
    {
        let size = icon_size(i);
        match decode_and_resize(bytes, size) {
            Err(m) => {
                return Err(m);
            },
            Ok(buf) => {
                let mut buf = buf;
                if radius_percent > 0 {
                    apply_rounded_corners(&mut buf, size, size, radius_percent);
                } else {
                    proof {
                        lemma_mask_radius_zero(buf@, size as int, size as int);
                    }
                }
                buffers.push(buf);
            },
        }
        i += 1;
    }
    Ok(RenderedIcon { buffers })
}

/// The length of a masked raster equals the length of its input.
proof fn lemma_mask_len(data: Seq<u8>, width: int, height: int, radius_percent: int)
    ensures
        spec_apply_mask(data, width, height, radius_percent).len() == data.len(),
{
}

/// The six rasters the container is built from, with their dimensions: one
/// per fixed size, each the masked resample of the decoded image bytes.
pub open spec fn spec_icon_entries(bytes: Seq<u8>, radius_percent: int) -> Seq<(
    u32,
    u32,
    Seq<u8>,
)> {
    Seq::new(
        6,
        |i: int|
            (
                spec_icon_size(i),
                spec_icon_size(i),
                spec_rendered_buffer(bytes, radius_percent, i),
            ),
    )
}

/// Builds the bytes of a multi-resolution icon container from base64 image
/// data: decode, rasterize at the six fixed sizes with corner masking, and
/// bundle. Succeeds exactly when the base64 text decodes and its bytes
/// decode as an image; the container bytes are then a function of the input
/// and the radius alone.
pub fn create_ico_from_base64(base64_data: &str, border_radius: u32) -> (r: Result<
    Vec<u8>,
    String,
>)
    requires
        border_radius <= 50,
    ensures
        r is Ok <==> (base64_decoded(base64_data@) matches Some(b) && image_decodable(b)),
        r matches Ok(v) ==> (base64_decoded(base64_data@) matches Some(b) && v@
            == ico_serialized(spec_icon_entries(b, border_radius as int))),
        base64_decoded(base64_data@) is None ==> (r matches Err(m) && exists|rest: Seq<char>|
            m@ == "Failed to decode base64: "@ + rest),
        (base64_decoded(base64_data@) matches Some(b) && !image_decodable(b)) ==> (r
            matches Err(m) && exists|rest: Seq<char>| m@ == "Failed to load image: "@ + rest),
{
    let decoded = match decode_base64(base64_data) {
        Ok(v) => v,
        Err(e) => {
            return Err(e);
        },
    };
    let icon = match rasterize_icon(&decoded, border_radius) {
        Ok(icon) => icon,
        Err(e) => {
            return Err(e);
        },
    };
    let mut buffers = icon.buffers;
    let mut dir = ico_dir_new();
    let ghost entries = spec_icon_entries(decoded@, border_radius as int);
    let mut i: usize = 0;
    proof {
        assert(ico_contents(dir) =~= entries.take(0));
    }
    while i < 6
        invariant
            border_radius <= 50,
            0 <= i <= 6,
            buffers@.len() == 6 - i,
            image_decodable(decoded@),
            entries == spec_icon_entries(decoded@, border_radius as int),
            ico_contents(dir) == entries.take(i as int),
            forall|k: int|
                0 <= k < 6 - i ==> (#[trigger] buffers@[k])@ == spec_rendered_buffer(
                    decoded@,
                    border_radius as int,
                    i + k,
                ) && buffers@[k]@.len() == 4 * spec_icon_size(i + k) * spec_icon_size(i + k),
        decreases 6 - i,
    {
        let size = icon_size(i);
        let buf = buffers.remove(0);
        proof {
            lemma_mask_len(
                resized_rgba(decoded@, spec_icon_size(i as int)),
                spec_icon_size(i as int) as int,
                spec_icon_size(i as int) as int,
                border_radius as int,
            );
        }
        let ghost entry = (size, size, buf@);
        match ico_add_rgba(&mut dir, size, size, buf) {
            Ok(_) => {},
            Err(e) => {
                return Err(e);
            },
        }
        proof {
            assert(entry == entries[i as int]);
            assert(entries.take(i + 1) =~= entries.take(i as int).push(entry));
        }
        i += 1;
    }
    proof {
        assert(entries.take(6) =~= entries);
    }
    ico_dir_bytes(&dir)
}

} // verus!
