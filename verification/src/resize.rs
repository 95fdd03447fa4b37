//! Planning of resize and center-crop geometry in exact integer arithmetic.
//!
//! The pixel work itself is done by the imaging library; this module decides
//! every dimension and offset handed to it, so the geometry of the output is
//! pinned down here.

use vstd::prelude::*;
use vstd::arithmetic::div_mod::{lemma_remainder, lemma_div_is_ordered, lemma_fundamental_div_mod_converse};
use crate::image_processing::RatioPolicy;

verus! {

/// The geometry handed to the imaging library: scale to
/// `(resize_w, resize_h)`; when `crop` is set, then cut the
/// `(out_w, out_h)` box at `(offset_x, offset_y)`.
#[derive(Debug, PartialEq, Eq, Structural, Clone, Copy)]
pub struct ResizePlan {
    pub resize_w: u32,
    pub resize_h: u32,
    pub crop: bool,
    pub offset_x: u32,
    pub offset_y: u32,
    pub out_w: u32,
    pub out_h: u32,
}

/// A requested dimension falls back to the source's.
pub open spec fn target_dim(src: u32, req: Option<u32>) -> int {
    match req {
        Option::None => src as int,
        Option::Some(v) => v as int,
    }
}

/// `a / b` rounded half away from zero, for nonnegative `a` and positive `b`.
pub open spec fn round_div(a: int, b: int) -> int {
    (2 * a + b) / (2 * b)
}

/// Saturation of a dimension at the largest representable value.
pub open spec fn cap_u32(x: int) -> int {
    if x > u32::MAX as int {
        u32::MAX as int
    } else {
        x
    }
}

/// Rounded division misses the exact ratio by at most half a denominator:
/// the planned cover width `q = round_div(a, b)` satisfies
/// `|q * b - a| <= b / 2`, so a cover computed from the source ratio keeps
/// that aspect ratio to within pixel rounding.
pub proof fn lemma_round_div_error(a: int, b: int)
    requires
        a >= 0,
        b >= 1,
    ensures
        2 * (round_div(a, b) * b - a) <= b,
        2 * (a - round_div(a, b) * b) < b,
{
    let t = 2 * a + b;
    let d = 2 * b;
    let q = t / d;
    lemma_remainder(t, d);
    assert(0 <= t - (t / d * d) < d);
    assert(q * d == 2 * (q * b)) by (nonlinear_arith)
        requires
            d == 2 * b,
    ;
}

/// A cover dimension computed from a strictly wider (or taller) source never
/// undershoots the target: `round_div(a, b) >= w` whenever `a > w * b`.
pub proof fn lemma_round_div_covers(a: int, b: int, w: int)
    requires
        b >= 1,
        w >= 0,
        a > w * b,
    ensures
        round_div(a, b) >= w,
{
    let t = 2 * a + b;
    let d = 2 * b;
    assert(t >= w * d) by (nonlinear_arith)
        requires
            a > w * b,
            b >= 1,
            t == 2 * a + b,
            d == 2 * b,
    ;
    lemma_fundamental_div_mod_converse(w * d, d, w, 0);
    assert((w * d) / d == w);
    lemma_div_is_ordered(w * d, t, d);
}

/// The product of two dimensions stays below two to the sixty-fourth.
proof fn lemma_dim_product_bound(x: int, y: int)
    requires
        0 <= x <= 0xFFFF_FFFF,
        0 <= y <= 0xFFFF_FFFF,
    ensures
        x * y <= 0xFFFF_FFFE_0000_0001,
{
    assert(x * y <= 0xFFFF_FFFE_0000_0001) by (nonlinear_arith)
        requires
            0 <= x <= 0xFFFF_FFFF,
            0 <= y <= 0xFFFF_FFFF,
    ;
}

/// Computes the geometry for one request: straight stretch under `Resize`;
/// under `CropToCenter` a direct resize when the aspect ratios agree
/// exactly, otherwise a proportional cover of the target box followed by a
/// centered crop. The planned output box is exactly the target; the cover
/// encloses it, saturating only at the largest representable dimension.
pub fn plan_resize(src_w: u32, src_h: u32, width: Option<u32>, height: Option<u32>,
    policy: RatioPolicy) -> (r: ResizePlan)
    requires
        src_w >= 1,
        src_h >= 1,
        width matches Some(v) ==> v >= 1,
        height matches Some(v) ==> v >= 1,
    ensures
        r.out_w == target_dim(src_w, width),
        r.out_h == target_dim(src_h, height),
        r.out_w >= 1 && r.out_h >= 1,
        policy == RatioPolicy::Resize ==> !r.crop,
        !r.crop ==> r.resize_w == r.out_w && r.resize_h == r.out_h
            && r.offset_x == 0 && r.offset_y == 0,
        policy == RatioPolicy::CropToCenter
            && src_w as int * r.out_h == r.out_w as int * src_h ==> !r.crop,
        policy == RatioPolicy::CropToCenter
            && src_w as int * r.out_h != r.out_w as int * src_h ==> r.crop,
        r.crop ==> {
            &&& r.resize_w >= r.out_w
            &&& r.resize_h >= r.out_h
            &&& r.offset_x == (r.resize_w - r.out_w) as int / 2
            &&& r.offset_y == (r.resize_h - r.out_h) as int / 2
        },
        r.crop && src_w as int * r.out_h > r.out_w as int * src_h ==> r.resize_h == r.out_h
            && r.resize_w == cap_u32(round_div(r.out_h * src_w as int, src_h as int)),
        r.crop && src_w as int * r.out_h < r.out_w as int * src_h ==> r.resize_w == r.out_w
            && r.resize_h == cap_u32(round_div(r.out_w * src_h as int, src_w as int)),
{
    let w: u32 = match width {
        Option::Some(v) => v,
        Option::None => src_w,
    };
    let h: u32 = match height {
        Option::Some(v) => v,
        Option::None => src_h,
    };
    match policy {
        RatioPolicy::Resize => ResizePlan {
            resize_w: w,
            resize_h: h,
            crop: false,
            offset_x: 0,
            offset_y: 0,
            out_w: w,
            out_h: h,
        },
        RatioPolicy::CropToCenter => {
            proof {
                lemma_dim_product_bound(src_w as int, h as int);
                lemma_dim_product_bound(w as int, src_h as int);
                lemma_dim_product_bound(h as int, src_w as int);
                lemma_dim_product_bound(w as int, src_h as int);
            }
            let lhs: u64 = (src_w as u64) * (h as u64);
            let rhs: u64 = (w as u64) * (src_h as u64);
            if lhs == rhs {
                ResizePlan {
                    resize_w: w,
                    resize_h: h,
                    crop: false,
                    offset_x: 0,
                    offset_y: 0,
                    out_w: w,
                    out_h: h,
                }
            } else if lhs > rhs {
                // source is wider: match the target height, cover the width
                let a: u64 = (h as u64) * (src_w as u64);
                let t: u128 = 2 * (a as u128) + (src_h as u128);
                let d: u128 = 2 * (src_h as u128);
                let q: u128 = t / d;
                proof {
                    assert(h as int * src_w as int == src_w as int * h as int)
                        by (nonlinear_arith);
                    lemma_round_div_covers(h as int * src_w as int, src_h as int, w as int);
                    assert(q == round_div(h as int * src_w as int, src_h as int));
                }
                let resize_w: u32 = if q > u32::MAX as u128 { u32::MAX } else { q as u32 };
                let offset_x: u32 = (resize_w - w) / 2;
                ResizePlan {
                    resize_w,
                    resize_h: h,
                    crop: true,
                    offset_x,
                    offset_y: 0,
                    out_w: w,
                    out_h: h,
                }
            } else {
                // source is taller: match the target width, cover the height
                let a: u64 = (w as u64) * (src_h as u64);
                let t: u128 = 2 * (a as u128) + (src_w as u128);
                let d: u128 = 2 * (src_w as u128);
                let q: u128 = t / d;
                proof {
                    assert(w as int * src_h as int == src_h as int * w as int)
                        by (nonlinear_arith);
                    assert(src_w as int * h as int == h as int * src_w as int)
                        by (nonlinear_arith);
                    lemma_round_div_covers(w as int * src_h as int, src_w as int, h as int);
                    assert(q == round_div(w as int * src_h as int, src_w as int));
                }
                let resize_h: u32 = if q > u32::MAX as u128 { u32::MAX } else { q as u32 };
                let offset_y: u32 = (resize_h - h) / 2;
                ResizePlan {
                    resize_w: w,
                    resize_h,
                    crop: true,
                    offset_x: 0,
                    offset_y,
                    out_w: w,
                    out_h: h,
                }
            }
        },
    }
}

} // verus!
