//! Processing parameters requested for a derivative image, their validation,
//! and the canonical total order used by the per-image variant index.

use vstd::prelude::*;
use crate::image_types::Extensions;

verus! {

/// The service's documented default encoding quality. The lossy encoder
/// entry points take quality as a floating-point number, which this library
/// does not hold, so WebP derivatives are encoded losslessly; the constant
/// is kept for callers that surface the documented default.
pub const DEFAULT_COMPRESSION_QUALITY: u32 = 82;

/// Behaviour when the requested aspect ratio differs from the source's.
#[derive(Debug, PartialEq, Eq, Structural, Clone, Copy)]
pub enum RatioPolicy {
    /// Stretch to the target size, changing the aspect ratio.
    Resize,
    /// Scale to cover the target box, then crop to its center.
    CropToCenter,
}

impl Default for RatioPolicy {
    fn default() -> (r: Self)
        ensures
            r == RatioPolicy::CropToCenter,
    {
        RatioPolicy::CropToCenter
    }
}

/// Options of a derivative request. Two requests with equal fields name the
/// same cache entry.
#[derive(Debug, PartialEq, Eq, Structural, Clone, Copy)]
pub struct ProcessingParams {
    pub width: Option<u32>,
    pub height: Option<u32>,
    pub extension: Option<Extensions>,
    pub quality: Option<u32>,
    pub ratio_policy: Option<RatioPolicy>,
}

/// Rank of a format in the canonical order (declaration order).
pub open spec fn ext_rank(e: Extensions) -> int {
    match e {
        Extensions::Webp => 0,
        Extensions::Avif => 1,
        Extensions::PNG => 2,
    }
}

/// Rank of a ratio policy in the canonical order (declaration order).
pub open spec fn policy_rank(p: RatioPolicy) -> int {
    match p {
        RatioPolicy::Resize => 0,
        RatioPolicy::CropToCenter => 1,
    }
}

/// An absent option sorts before every present one.
pub open spec fn opt_u32_rank(o: Option<u32>) -> int {
    match o {
        Option::None => -1,
        Option::Some(x) => x as int,
    }
}

pub open spec fn opt_ext_rank(o: Option<Extensions>) -> int {
    match o {
        Option::None => -1,
        Option::Some(e) => ext_rank(e),
    }
}

pub open spec fn opt_policy_rank(o: Option<RatioPolicy>) -> int {
    match o {
        Option::None => -1,
        Option::Some(p) => policy_rank(p),
    }
}

/// The canonical strict total order on parameters: lexicographic over
/// width, height, extension, quality, ratio policy, an absent field first.
/// The greatest element under this order is the one evicted by the
/// `Rewrite` overflow policy.
pub open spec fn param_lt(a: ProcessingParams, b: ProcessingParams) -> bool {
    if opt_u32_rank(a.width) != opt_u32_rank(b.width) {
        opt_u32_rank(a.width) < opt_u32_rank(b.width)
    } else if opt_u32_rank(a.height) != opt_u32_rank(b.height) {
        opt_u32_rank(a.height) < opt_u32_rank(b.height)
    } else if opt_ext_rank(a.extension) != opt_ext_rank(b.extension) {
        opt_ext_rank(a.extension) < opt_ext_rank(b.extension)
    } else if opt_u32_rank(a.quality) != opt_u32_rank(b.quality) {
        opt_u32_rank(a.quality) < opt_u32_rank(b.quality)
    } else {
        opt_policy_rank(a.ratio_policy) < opt_policy_rank(b.ratio_policy)
    }
}

/// The canonical order decides every pair: exactly one of `a < b`, `a == b`,
/// `b < a` holds.
pub proof fn lemma_param_order_trichotomy(a: ProcessingParams, b: ProcessingParams)
    ensures
        param_lt(a, b) || param_lt(b, a) || a == b,
        param_lt(a, b) ==> !param_lt(b, a) && a != b,
        param_lt(b, a) ==> !param_lt(a, b) && a != b,
{
}

/// The canonical order is transitive.
pub proof fn lemma_param_order_transitive(a: ProcessingParams, b: ProcessingParams, c: ProcessingParams)
    requires
        param_lt(a, b),
        param_lt(b, c),
    ensures
        param_lt(a, c),
{
}

fn cmp_opt_u32(a: &Option<u32>, b: &Option<u32>) -> (r: i8)
    ensures
        r == -1 <==> opt_u32_rank(*a) < opt_u32_rank(*b),
        r == 1 <==> opt_u32_rank(*a) > opt_u32_rank(*b),
        r == 0 <==> opt_u32_rank(*a) == opt_u32_rank(*b),
{
    match (a, b) {
        (Option::None, Option::None) => 0,
        (Option::None, Option::Some(_)) => -1,
        (Option::Some(_), Option::None) => 1,
        (Option::Some(x), Option::Some(y)) => {
            if *x < *y {
                -1
            } else if *x > *y {
                1
            } else {
                0
            }
        },
    }
}

fn ext_rank_exec(e: &Extensions) -> (r: i8)
    ensures
        r as int == ext_rank(*e),
{
    match e {
        Extensions::Webp => 0,
        Extensions::Avif => 1,
        Extensions::PNG => 2,
    }
}

fn cmp_opt_ext(a: &Option<Extensions>, b: &Option<Extensions>) -> (r: i8)
    ensures
        r == -1 <==> opt_ext_rank(*a) < opt_ext_rank(*b),
        r == 1 <==> opt_ext_rank(*a) > opt_ext_rank(*b),
        r == 0 <==> opt_ext_rank(*a) == opt_ext_rank(*b),
{
    match (a, b) {
        (Option::None, Option::None) => 0,
        (Option::None, Option::Some(_)) => -1,
        (Option::Some(_), Option::None) => 1,
        (Option::Some(x), Option::Some(y)) => {
            let rx = ext_rank_exec(x);
            let ry = ext_rank_exec(y);
            if rx < ry {
                -1
            } else if rx > ry {
                1
            } else {
                0
            }
        },
    }
}

fn policy_rank_exec(p: &RatioPolicy) -> (r: i8)
    ensures
        r as int == policy_rank(*p),
{
    match p {
        RatioPolicy::Resize => 0,
        RatioPolicy::CropToCenter => 1,
    }
}

fn cmp_opt_policy(a: &Option<RatioPolicy>, b: &Option<RatioPolicy>) -> (r: i8)
    ensures
        r == -1 <==> opt_policy_rank(*a) < opt_policy_rank(*b),
        r == 1 <==> opt_policy_rank(*a) > opt_policy_rank(*b),
        r == 0 <==> opt_policy_rank(*a) == opt_policy_rank(*b),
{
    match (a, b) {
        (Option::None, Option::None) => 0,
        (Option::None, Option::Some(_)) => -1,
        (Option::Some(_), Option::None) => 1,
        (Option::Some(x), Option::Some(y)) => {
            let rx = policy_rank_exec(x);
            let ry = policy_rank_exec(y);
            if rx < ry {
                -1
            } else if rx > ry {
                1
            } else {
                0
            }
        },
    }
}

impl ProcessingParams {
    /// Decides the canonical order between two parameter records.
    pub fn lt(&self, other: &ProcessingParams) -> (r: bool)
        ensures
            r == param_lt(*self, *other),
    {
        let cw = cmp_opt_u32(&self.width, &other.width);
        if cw != 0 {
            return cw == -1;
        }
        let ch = cmp_opt_u32(&self.height, &other.height);
        if ch != 0 {
            return ch == -1;
        }
        let ce = cmp_opt_ext(&self.extension, &other.extension);
        if ce != 0 {
            return ce == -1;
        }
        let cq = cmp_opt_u32(&self.quality, &other.quality);
        if cq != 0 {
            return cq == -1;
        }
        cmp_opt_policy(&self.ratio_policy, &other.ratio_policy) == -1
    }
}

/// A quality outside [10, 100] is rejected before any processing happens.
pub open spec fn quality_ok(q: Option<u32>) -> bool {
    match q {
        Option::None => true,
        Option::Some(v) => 10 <= v <= 100,
    }
}

/// Validates the requested quality, as the request handler does before
/// handing the parameters to the processor.
pub fn validate_processing_params(params: &ProcessingParams) -> (r: Result<(), &'static str>)
    ensures
        r is Ok <==> quality_ok(params.quality),
{
    if let Option::Some(quality) = params.quality {
        if quality < 10 || quality > 100 {
            return Result::Err("Quality must be between 10 and 100");
        }
    }
    Result::Ok(())
}

} // verus!
