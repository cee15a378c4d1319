//! Area-relative watermark scaling: the watermark's target pixel area is a
//! fixed fraction of each host image's area, and its width and height are
//! solved from that area and the watermark's own aspect ratio with
//! round-to-nearest integer square roots.
use vstd::prelude::*;

verus! {

/// r is the square root of n rounded down: r*r <= n < (r+1)*(r+1).
pub open spec fn is_floor_sqrt(n: int, r: int) -> bool {
    0 <= r && r * r <= n < (r + 1) * (r + 1)
}

/// s is the square root of n rounded to the nearest integer, halves up:
/// sqrt(n) lies in [s - 1/2, s + 1/2), i.e. s*s - s + 1 <= n <= s*s + s.
pub open spec fn is_rounded_sqrt(n: int, s: int) -> bool {
    (n == 0 && s == 0) || (1 <= s && s * s - s + 1 <= n <= s * s + s)
}

/// Square root of n rounded down, by bisection.
pub fn floor_sqrt(n: u128) -> (r: u64)
    ensures
        is_floor_sqrt(n as int, r as int),
{
    let mut lo: u128 = 0;
    let mut hi: u128 = 18446744073709551616;
    proof {
        assert((18446744073709551616 as int) * (18446744073709551616 as int) > u128::MAX as int)
            by (nonlinear_arith);
    }
    while hi - lo > 1
        invariant
            0 <= lo < hi <= 18446744073709551616,
            lo * lo <= n as int,
            (n as int) < hi * hi,
        decreases hi - lo,
    {
        let mid = lo + (hi - lo) / 2;
        proof {
            assert(lo < mid < hi);
            vstd::arithmetic::mul::lemma_mul_upper_bound(
                mid as int, 18446744073709551615, mid as int, 18446744073709551615);
            assert((18446744073709551615 as int) * (18446744073709551615 as int)
                <= u128::MAX as int) by (nonlinear_arith);
        }
        if mid * mid <= n {
            lo = mid;
        } else {
            hi = mid;
        }
    }
    proof {
        assert(lo < 18446744073709551616);
    }
    lo as u64
}

/// Largest target area (and so largest radicand) the scaler accepts: with
/// the relative surface area at most 1 and every dimension at most MAX_DIM,
/// a radicand never exceeds MAX_DIM * MAX_DIM * MAX_DIM.
pub const MAX_RADICAND: u128 = 1000000000000000000;

/// Square root of n rounded to the nearest integer, halves up.
pub fn rounded_sqrt(n: u128) -> (s: u32)
    requires
        n <= MAX_RADICAND,
    ensures
        is_rounded_sqrt(n as int, s as int),
{
    let r = floor_sqrt(n);
    proof {
        assert(r <= 1000000000) by (nonlinear_arith)
            requires
                (r as int) * (r as int) <= n as int,
                n as int <= 1000000000000000000,
                0 <= r as int;
    }
    let rr = r as u128;
    let s: u64 = if n - rr * rr > rr {
        r + 1
    } else {
        r
    };
    proof {
        let ni = n as int;
        let ri = r as int;
        if ni - ri * ri > ri {
            assert(is_rounded_sqrt(ni, ri + 1)) by (nonlinear_arith)
                requires
                    ri * ri <= ni < (ri + 1) * (ri + 1),
                    ni - ri * ri > ri,
                    0 <= ri;
        } else {
            assert(is_rounded_sqrt(ni, ri)) by (nonlinear_arith)
                requires
                    ri * ri <= ni < (ri + 1) * (ri + 1),
                    ni - ri * ri <= ri,
                    0 <= ri;
        }
    }
    s as u32
}

/// Largest relative-surface-area denominator the scaler accepts: the pixel
/// area of a preview image whose sides are at most MAX_DIM.
pub const MAX_AREA_DEN: u64 = 1000000000000;

/// Radicand of the scaled width: the target area, rel_num/rel_den of the
/// host image's pixel area, times the watermark's aspect ratio wm_w/wm_h,
/// taken as one exact floor division.
pub open spec fn width_radicand(
    rel_num: int,
    rel_den: int,
    img_w: int,
    img_h: int,
    wm_w: int,
    wm_h: int,
) -> int {
    (rel_num * img_w * img_h * wm_w) / (rel_den * wm_h)
}

/// Radicand of the scaled height: the target area divided by the
/// watermark's aspect ratio.
pub open spec fn height_radicand(
    rel_num: int,
    rel_den: int,
    img_w: int,
    img_h: int,
    wm_w: int,
    wm_h: int,
) -> int {
    (rel_num * img_w * img_h * wm_h) / (rel_den * wm_w)
}

proof fn lemma_scaled_product_bound(num: int, den: int, x: int, h: int)
    requires
        1 <= num <= den,
        1 <= h,
        0 <= x,
    ensures
        0 <= (num * x) / (den * h) <= x,
{
    assert(1 <= den * h) by (nonlinear_arith)
        requires 1 <= den, 1 <= h;
    let b = den * h;
    let q = (num * x) / b;
    assert(0 <= num * x) by (nonlinear_arith)
        requires 1 <= num, 0 <= x;
    assert(q >= 0) by {
        vstd::arithmetic::div_mod::lemma_div_pos_is_pos(num * x, b);
    }
    vstd::arithmetic::div_mod::lemma_fundamental_div_mod(num * x, b);
    assert(q * b <= num * x);
    assert(num * x <= b * x) by (nonlinear_arith)
        requires 1 <= num <= den, 1 <= h, 0 <= x, b == den * h;
    assert(q <= x) by (nonlinear_arith)
        requires q * b <= b * x, 1 <= b, 0 <= q;
}

/// The watermark's scaled size for one host image.
pub struct ScaledDims {
    pub width: u32,
    pub height: u32,
}

/// Solves the scaled watermark size from the target surface area
/// (rel_num/rel_den of the host image's area) and the watermark's aspect
/// ratio: width = round(sqrt(area * aspect)), height = round(sqrt(area / aspect)).
pub fn scaled_watermark_dims(
    rel_num: u64,
    rel_den: u64,
    img_w: u32,
    img_h: u32,
    wm_w: u32,
    wm_h: u32,
) -> (r: ScaledDims)
    requires
        1 <= rel_num <= rel_den,
        rel_den <= MAX_AREA_DEN,
        img_w <= crate::geometry::MAX_DIM,
        img_h <= crate::geometry::MAX_DIM,
        1 <= wm_w <= crate::geometry::MAX_DIM,
        1 <= wm_h <= crate::geometry::MAX_DIM,
    ensures
        is_rounded_sqrt(
            width_radicand(rel_num as int, rel_den as int, img_w as int, img_h as int,
                wm_w as int, wm_h as int),
            r.width as int,
        ),
        is_rounded_sqrt(
            height_radicand(rel_num as int, rel_den as int, img_w as int, img_h as int,
                wm_w as int, wm_h as int),
            r.height as int,
        ),
{
    proof {
        vstd::arithmetic::mul::lemma_mul_upper_bound(
            img_w as int, 1000000, img_h as int, 1000000);
        vstd::arithmetic::mul::lemma_mul_upper_bound(
            img_w as int * img_h as int, 1000000000000, wm_w as int, 1000000);
        vstd::arithmetic::mul::lemma_mul_upper_bound(
            img_w as int * img_h as int, 1000000000000, wm_h as int, 1000000);
        vstd::arithmetic::mul::lemma_mul_upper_bound(
            rel_num as int, 1000000000000,
            img_w as int * img_h as int * wm_w as int, 1000000000000000000);
        vstd::arithmetic::mul::lemma_mul_upper_bound(
            rel_num as int, 1000000000000,
            img_w as int * img_h as int * wm_h as int, 1000000000000000000);
        vstd::arithmetic::mul::lemma_mul_upper_bound(
            rel_den as int, 1000000000000, wm_h as int, 1000000);
        vstd::arithmetic::mul::lemma_mul_upper_bound(
            rel_den as int, 1000000000000, wm_w as int, 1000000);
    }
    let area3: u128 = rel_num as u128 * (img_w as u128 * img_h as u128 * wm_w as u128);
    let area4: u128 = rel_num as u128 * (img_w as u128 * img_h as u128 * wm_h as u128);
    let den_w: u128 = rel_den as u128 * wm_h as u128;
    let den_h: u128 = rel_den as u128 * wm_w as u128;
    proof {
        assert(rel_den as int * wm_h as int >= 1) by (nonlinear_arith)
            requires rel_den as int >= 1, wm_h as int >= 1;
        assert(rel_den as int * wm_w as int >= 1) by (nonlinear_arith)
            requires rel_den as int >= 1, wm_w as int >= 1;
    }
    let nw: u128 = area3 / den_w;
    let nh: u128 = area4 / den_h;
    proof {
        lemma_scaled_product_bound(
            rel_num as int, rel_den as int,
            img_w as int * img_h as int * wm_w as int, wm_h as int);
        lemma_scaled_product_bound(
            rel_num as int, rel_den as int,
            img_w as int * img_h as int * wm_h as int, wm_w as int);
        assert(rel_num as int * img_w as int * img_h as int * wm_w as int
            == rel_num as int * (img_w as int * img_h as int * wm_w as int))
            by (nonlinear_arith);
        assert(rel_num as int * img_w as int * img_h as int * wm_h as int
            == rel_num as int * (img_w as int * img_h as int * wm_h as int))
            by (nonlinear_arith);
    }
    let width = rounded_sqrt(nw);
    let height = rounded_sqrt(nh);
    ScaledDims { width, height }
}

/// The margin in host-image pixels: the preview margin's fraction of the
/// preview image's width, applied to the host image's width and rounded to
/// the nearest pixel (halves up).
pub open spec fn rounded_div(a: int, b: int) -> int
    recommends
        a >= 0,
        b >= 1,
{
    (2 * a + b) / (2 * b)
}

/// Margin scaled for one host image: round(margin * img_w / preview_w).
pub fn scaled_margin(margin: u32, preview_w: u32, img_w: u32) -> (m: u64)
    requires
        margin <= crate::geometry::MAX_DIM,
        1 <= preview_w <= crate::geometry::MAX_DIM,
        img_w <= crate::geometry::MAX_DIM,
    ensures
        m == rounded_div(margin as int * img_w as int, preview_w as int),
        m <= 1000000500000,
{
    proof {
        vstd::arithmetic::mul::lemma_mul_upper_bound(
            margin as int, 1000000, img_w as int, 1000000);
    }
    let a: u64 = margin as u64 * img_w as u64;
    let m: u64 = (2 * a + preview_w as u64) / (2 * preview_w as u64);
    proof {
        let q = rounded_div(a as int, preview_w as int);
        vstd::arithmetic::div_mod::lemma_fundamental_div_mod(
            2 * a as int + preview_w as int, 2 * preview_w as int);
        assert(q * (2 * preview_w as int) <= 2 * a as int + preview_w as int);
        assert(q >= 0) by {
            vstd::arithmetic::div_mod::lemma_div_pos_is_pos(
                2 * a as int + preview_w as int, 2 * preview_w as int);
        }
        assert(2 * q <= q * (2 * preview_w as int)) by (nonlinear_arith)
            requires 0 <= q, 1 <= preview_w as int;
        assert(q <= 1000000500000);
    }
    m
}

/// The rounded square root of a number is unique, so a contract stated
/// over is_rounded_sqrt pins its result exactly.
pub proof fn lemma_rounded_sqrt_unique(n: int, s1: int, s2: int)
    requires
        is_rounded_sqrt(n, s1),
        is_rounded_sqrt(n, s2),
    ensures
        s1 == s2,
{
    assert(s1 == s2) by (nonlinear_arith)
        requires
            is_rounded_sqrt(n, s1),
            is_rounded_sqrt(n, s2);
}

proof fn lemma_div_times_four(a: int, b: int)
    requires
        0 <= a,
        1 <= b,
    ensures
        4 * (a / b) <= (4 * a) / b <= 4 * (a / b) + 3,
{
    let q = a / b;
    let m = (4 * a) / b;
    vstd::arithmetic::div_mod::lemma_fundamental_div_mod(a, b);
    vstd::arithmetic::div_mod::lemma_fundamental_div_mod(4 * a, b);
    let r1 = a % b;
    let r2 = (4 * a) % b;
    assert(b * (m - 4 * q) == 4 * r1 - r2) by (nonlinear_arith)
        requires
            a == b * q + r1,
            4 * a == b * m + r2;
    assert(0 <= m - 4 * q <= 3) by (nonlinear_arith)
        requires
            b * (m - 4 * q) == 4 * r1 - r2,
            0 <= r1 < b,
            0 <= r2 < b,
            1 <= b;
}

proof fn lemma_rounded_sqrt_doubles(q: int, m: int, s1: int, s2: int)
    requires
        1 <= q,
        4 * q <= m <= 4 * q + 3,
        is_rounded_sqrt(q, s1),
        is_rounded_sqrt(m, s2),
    ensures
        2 * s1 - 1 <= s2 <= 2 * s1 + 1,
{
    assert(2 * s1 - 1 <= s2 <= 2 * s1 + 1) by (nonlinear_arith)
        requires
            1 <= q,
            4 * q <= m <= 4 * q + 3,
            1 <= s1,
            s1 * s1 - s1 + 1 <= q <= s1 * s1 + s1,
            1 <= s2,
            s2 * s2 - s2 + 1 <= m <= s2 * s2 + s2;
}

/// Proportional scaling: doubling both host-image dimensions while holding
/// the relative surface area fixed doubles the scaled watermark width to
/// within one pixel of rounding (the area scales by four, so the linear
/// dimension scales by two). The same statement holds of the height, since
/// the height radicand is the width radicand with the watermark's dimensions
/// swapped. The one excluded input is a radicand of zero (a watermark scaled
/// to nothing), where doubling can still round up to two pixels.
pub proof fn lemma_proportional_scaling(
    rel_num: int,
    rel_den: int,
    img_w: int,
    img_h: int,
    wm_w: int,
    wm_h: int,
    s1: int,
    s2: int,
)
    requires
        1 <= rel_num <= rel_den,
        0 <= img_w,
        0 <= img_h,
        1 <= wm_w,
        1 <= wm_h,
        1 <= width_radicand(rel_num, rel_den, img_w, img_h, wm_w, wm_h),
        is_rounded_sqrt(width_radicand(rel_num, rel_den, img_w, img_h, wm_w, wm_h), s1),
        is_rounded_sqrt(width_radicand(rel_num, rel_den, 2 * img_w, 2 * img_h, wm_w, wm_h), s2),
    ensures
        2 * s1 - 1 <= s2 <= 2 * s1 + 1,
{
    let a = rel_num * img_w * img_h * wm_w;
    let b = rel_den * wm_h;
    assert(rel_num * (2 * img_w) * (2 * img_h) * wm_w
        == 4 * (rel_num * img_w * img_h * wm_w)) by (nonlinear_arith);
    assert(0 <= rel_num * img_w * img_h * wm_w) by (nonlinear_arith)
        requires 1 <= rel_num, 0 <= img_w, 0 <= img_h, 1 <= wm_w;
    assert(1 <= rel_den * wm_h) by (nonlinear_arith)
        requires 1 <= rel_den, 1 <= wm_h;
    lemma_div_times_four(a, b);
    lemma_rounded_sqrt_doubles(a / b, (4 * a) / b, s1, s2);
}

/// Aspect preservation: the scaled width and height keep the watermark's
/// own width/height ratio to within one pixel of rounding per dimension;
/// scaled_w * wm_h and scaled_h * wm_w agree up to wm_w + wm_h, which is
/// |scaled_w - scaled_h * (wm_w / wm_h)| <= 1 + wm_w / wm_h. The excluded
/// inputs are those where either scaled dimension rounds to zero.
pub proof fn lemma_aspect_preserved(
    rel_num: int,
    rel_den: int,
    img_w: int,
    img_h: int,
    wm_w: int,
    wm_h: int,
    sw: int,
    sh: int,
)
    requires
        1 <= rel_num <= rel_den,
        0 <= img_w,
        0 <= img_h,
        1 <= wm_w,
        1 <= wm_h,
        is_rounded_sqrt(width_radicand(rel_num, rel_den, img_w, img_h, wm_w, wm_h), sw),
        is_rounded_sqrt(height_radicand(rel_num, rel_den, img_w, img_h, wm_w, wm_h), sh),
        1 <= sw,
        1 <= sh,
    ensures
        sw * wm_h <= sh * wm_w + wm_w + wm_h,
        sh * wm_w <= sw * wm_h + wm_w + wm_h,
{
    let aa = rel_num * img_w * img_h;
    let w = wm_w;
    let h = wm_h;
    let b = rel_den;
    let qw = width_radicand(rel_num, rel_den, img_w, img_h, wm_w, wm_h);
    let qh = height_radicand(rel_num, rel_den, img_w, img_h, wm_w, wm_h);
    let m = aa * w * h;
    assert(0 <= aa * w) by (nonlinear_arith)
        requires 1 <= rel_num, 0 <= img_w, 0 <= img_h, 1 <= w, aa == rel_num * img_w * img_h;
    assert(0 <= aa * h) by (nonlinear_arith)
        requires 1 <= rel_num, 0 <= img_w, 0 <= img_h, 1 <= h, aa == rel_num * img_w * img_h;
    assert(1 <= b * h && 1 <= b * w) by (nonlinear_arith)
        requires 1 <= b, 1 <= w, 1 <= h;
    vstd::arithmetic::div_mod::lemma_fundamental_div_mod(aa * w, b * h);
    vstd::arithmetic::div_mod::lemma_fundamental_div_mod(aa * h, b * w);
    let rw = (aa * w) % (b * h);
    let rh = (aa * h) % (b * w);
    // the two radicands measure the same target area M = aa * w * h, scaled
    // by b * h * h and b * w * w respectively
    assert((b * h) * (h * qw) <= m < (b * h) * (h * qw) + b * (h * h)) by (nonlinear_arith)
        requires
            aa * w == (b * h) * qw + rw,
            0 <= rw < b * h,
            m == aa * w * h,
            1 <= h;
    assert((b * w) * (w * qh) <= m < (b * w) * (w * qh) + b * (w * w)) by (nonlinear_arith)
        requires
            aa * h == (b * w) * qh + rh,
            0 <= rh < b * w,
            m == aa * w * h,
            1 <= w;
    assert(h * h * qw < w * w * qh + w * w) by (nonlinear_arith)
        requires
            (b * h) * (h * qw) <= m,
            m < (b * w) * (w * qh) + b * (w * w),
            1 <= b,
            1 <= w,
            1 <= h;
    assert(w * w * qh < h * h * qw + h * h) by (nonlinear_arith)
        requires
            (b * w) * (w * qh) <= m,
            m < (b * h) * (h * qw) + b * (h * h),
            1 <= b,
            1 <= w,
            1 <= h;
    let x = sw * h;
    let y = sh * w;
    assert(h <= x && w <= y) by (nonlinear_arith)
        requires
            x == sw * h,
            y == sh * w,
            1 <= sw,
            1 <= sh,
            1 <= h,
            1 <= w;
    assert(x * x - x * h + h * h <= h * h * qw && h * h * qw <= x * x + x * h)
        by (nonlinear_arith)
        requires
            x == sw * h,
            1 <= h,
            1 <= sw,
            sw * sw - sw + 1 <= qw <= sw * sw + sw;
    assert(y * y - y * w + w * w <= w * w * qh && w * w * qh <= y * y + y * w)
        by (nonlinear_arith)
        requires
            y == sh * w,
            1 <= w,
            1 <= sh,
            sh * sh - sh + 1 <= qh <= sh * sh + sh;
    assert(x <= y + w + h) by (nonlinear_arith)
        requires
            x * x - x * h + h * h <= h * h * qw,
            h * h * qw < w * w * qh + w * w,
            w * w * qh <= y * y + y * w,
            h <= x,
            w <= y,
            1 <= h,
            1 <= w;
    assert(y <= x + w + h) by (nonlinear_arith)
        requires
            y * y - y * w + w * w <= w * w * qh,
            w * w * qh < h * h * qw + h * h,
            h * h * qw <= x * x + x * h,
            h <= x,
            w <= y,
            1 <= h,
            1 <= w;
}

} // verus!
