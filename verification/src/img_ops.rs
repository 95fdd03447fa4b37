//! Pixel work done by the imaging libraries, behind trusted boundaries.
//!
//! A decoded image travels as a [`PixelImage`]: the opaque pixel buffer next
//! to the dimensions the library reported for it. The fields are private and
//! set only by the wrappers here, always from the library's own answer, so a
//! `PixelImage` never claims dimensions its buffer does not have; the
//! dimension clauses of the trusted contracts below lean on that. Every
//! resize and crop is called with geometry computed and checked in
//! [`crate::resize`].

use vstd::prelude::*;
use crate::image_types::Extensions;
use crate::resize::ResizePlan;

verus! {

#[verifier::external_type_specification]
#[verifier::external_body]
pub struct ExDynamicImage(image::DynamicImage);

/// A decoded pixel buffer and the dimensions reported for it.
pub struct PixelImage {
    img: image::DynamicImage,
    width: u32,
    height: u32,
}

impl PixelImage {
    /// The buffer's width in pixels.
    pub closed spec fn spec_width(&self) -> u32 {
        self.width
    }

    /// The buffer's height in pixels.
    pub closed spec fn spec_height(&self) -> u32 {
        self.height
    }

    /// Reads the buffer's width.
    pub fn width(&self) -> (r: u32)
        ensures
            r == self.spec_width(),
    {
        self.width
    }

    /// Reads the buffer's height.
    pub fn height(&self) -> (r: u32)
        ensures
            r == self.spec_height(),
    {
        self.height
    }
}

/// Whether `image::load_from_memory` decodes the bytes: a function of the
/// bytes alone.
pub uninterp spec fn decode_ok(b: Seq<u8>) -> bool;

/// The width `image::load_from_memory` reports for the decoded bytes.
pub uninterp spec fn decoded_width(b: Seq<u8>) -> u32;

/// The height `image::load_from_memory` reports for the decoded bytes.
pub uninterp spec fn decoded_height(b: Seq<u8>) -> u32;

/// Relies on `image::load_from_memory` and the decoded image's `width` and
/// `height`: decoding succeeds or fails, and reports dimensions, depending
/// on the bytes alone.
#[verifier::external_body]
fn decode_image(data: &Vec<u8>) -> (r: Option<PixelImage>)
    ensures
        (r is Some) == decode_ok(data@),
        r matches Some(p) ==> p.spec_width() == decoded_width(data@)
            && p.spec_height() == decoded_height(data@),
{
    match image::load_from_memory(data.as_slice()) {
        Ok(img) => {
            let width = img.width();
            let height = img.height();
            Some(PixelImage { img, width, height })
        },
        Err(_) => None,
    }
}

/// Relies on `image::DynamicImage::resize_exact`: the result has exactly the
/// requested dimensions, ignoring the source aspect ratio.
#[verifier::external_body]
fn resize_exact_px(p: &PixelImage, w: u32, h: u32) -> (r: PixelImage)
    requires
        w >= 1,
        h >= 1,
    ensures
        r.spec_width() == w,
        r.spec_height() == h,
{
    let img = p.img.resize_exact(w, h, image::imageops::FilterType::Lanczos3);
    PixelImage { img, width: w, height: h }
}

/// Relies on `image::DynamicImage::resize` (fit semantics of
/// `resize_dimensions`): the result preserves the source aspect ratio, both
/// dimensions lie within the requested box and at least one meets its bound;
/// neither is ever zero.
#[verifier::external_body]
fn resize_cover_px(p: &PixelImage, w: u32, h: u32) -> (r: PixelImage)
    requires
        w >= 1,
        h >= 1,
        p.spec_width() >= 1,
        p.spec_height() >= 1,
    ensures
        1 <= r.spec_width() <= w,
        1 <= r.spec_height() <= h,
        r.spec_width() == w || r.spec_height() == h,
{
    let img = p.img.resize(w, h, image::imageops::FilterType::Lanczos3);
    let width = img.width();
    let height = img.height();
    PixelImage { img, width, height }
}

/// Relies on `image::DynamicImage::crop_imm`: each axis is cut exactly where
/// the rectangle lies within the image, and clamped at the border where it
/// does not.
#[verifier::external_body]
fn crop_px(p: &PixelImage, x: u32, y: u32, w: u32, h: u32) -> (r: PixelImage)
    ensures
        x + w <= p.spec_width() ==> r.spec_width() == w,
        y + h <= p.spec_height() ==> r.spec_height() == h,
        r.spec_width() <= w,
        r.spec_height() <= h,
{
    let img = p.img.crop_imm(x, y, w, h);
    let width = img.width();
    let height = img.height();
    PixelImage { img, width, height }
}

/// Relies on `webp::Encoder::from_rgba`, `webp::WebPConfig::new` and
/// `encode_advanced` over the buffer from `image::DynamicImage::to_rgba8`:
/// lossless WebP (the encoder's lossy entry points take quality as a
/// floating-point number, which this library does not hold); any error, such
/// as a dimension beyond the format's limit, reports as failure rather than
/// panicking. A successful encode is a nonempty bitstream.
#[verifier::external_body]
fn encode_webp_px(p: &PixelImage) -> (r: Option<Vec<u8>>)
    ensures
        r matches Some(b) ==> b@.len() > 0,
{
    let rgba = p.img.to_rgba8();
    let encoder = webp::Encoder::from_rgba(rgba.as_raw(), rgba.width(), rgba.height());
    let mut config = match webp::WebPConfig::new() {
        Ok(config) => config,
        Err(()) => return None,
    };
    config.lossless = 1;
    config.alpha_compression = 0;
    match encoder.encode_advanced(&config) {
        Ok(m) => Some(m.to_vec()),
        Err(_) => None,
    }
}

/// Relies on `image::DynamicImage::write_to` with the PNG format: encodes
/// the pixels as PNG; a successful encode is a nonempty stream.
#[verifier::external_body]
fn encode_png_px(p: &PixelImage) -> (r: Option<Vec<u8>>)
    ensures
        r matches Some(b) ==> b@.len() > 0,
{
    let mut buf = std::io::Cursor::new(Vec::new());
    match p.img.write_to(&mut buf, image::ImageFormat::Png) {
        Ok(()) => Some(buf.into_inner()),
        Err(_) => None,
    }
}

/// Relies on `image::DynamicImage::write_to` with the AVIF format: encodes
/// the pixels as AVIF where the imaging library carries that encoder, and
/// reports failure where it does not; a successful encode is a nonempty
/// stream.
#[verifier::external_body]
fn encode_avif_px(p: &PixelImage) -> (r: Option<Vec<u8>>)
    ensures
        r matches Some(b) ==> b@.len() > 0,
{
    let mut buf = std::io::Cursor::new(Vec::new());
    match p.img.write_to(&mut buf, image::ImageFormat::Avif) {
        Ok(()) => Some(buf.into_inner()),
        Err(_) => None,
    }
}

/// Decodes original bytes into a pixel buffer, treating a degenerate
/// (zero-sized) decode as a failure so that later geometry is well-defined.
pub fn decode_pixels(data: &Vec<u8>) -> (r: Option<PixelImage>)
    ensures
        (r is Some) == (decode_ok(data@) && decoded_width(data@) >= 1
            && decoded_height(data@) >= 1),
        r matches Some(p) ==> p.spec_width() == decoded_width(data@)
            && p.spec_height() == decoded_height(data@)
            && p.spec_width() >= 1 && p.spec_height() >= 1,
{
    match decode_image(data) {
        Option::Some(p) => {
            if p.width() == 0 || p.height() == 0 {
                Option::None
            } else {
                Option::Some(p)
            }
        },
        Option::None => Option::None,
    }
}

/// Applies a computed plan: a straight resize, or a cover resize followed by
/// the centered crop. A straight resize yields exactly the planned output
/// box; on the crop path neither output dimension exceeds its target, at
/// least one meets it exactly, and the only shortfall is the border clamp
/// the plan's saturation allows for.
pub fn apply_plan(src: &PixelImage, plan: &ResizePlan) -> (r: PixelImage)
    requires
        src.spec_width() >= 1,
        src.spec_height() >= 1,
        plan.out_w >= 1,
        plan.out_h >= 1,
        plan.crop ==> plan.resize_w >= plan.out_w && plan.resize_h >= plan.out_h,
        plan.crop ==> plan.offset_x == (plan.resize_w - plan.out_w) as int / 2
            && plan.offset_y == (plan.resize_h - plan.out_h) as int / 2,
        !plan.crop ==> plan.resize_w == plan.out_w && plan.resize_h == plan.out_h,
    ensures
        !plan.crop ==> r.spec_width() == plan.out_w && r.spec_height() == plan.out_h,
        plan.crop ==> r.spec_width() <= plan.out_w && r.spec_height() <= plan.out_h,
        plan.crop ==> r.spec_width() == plan.out_w || r.spec_height() == plan.out_h,
{
    if !plan.crop {
        resize_exact_px(src, plan.resize_w, plan.resize_h)
    } else {
        let cover = resize_cover_px(src, plan.resize_w, plan.resize_h);
        proof {
            assert(plan.offset_x + plan.out_w <= plan.resize_w);
            assert(plan.offset_y + plan.out_h <= plan.resize_h);
        }
        crop_px(&cover, plan.offset_x, plan.offset_y, plan.out_w, plan.out_h)
    }
}

/// Encodes pixels to the requested output format. An unavailable or failing
/// encoder reports failure; success is a nonempty stream.
pub fn encode_pixels(p: &PixelImage, extension: Extensions) -> (r: Option<Vec<u8>>)
    ensures
        r matches Some(b) ==> b@.len() > 0,
{
    match extension {
        Extensions::Webp => encode_webp_px(p),
        Extensions::PNG => encode_png_px(p),
        Extensions::Avif => encode_avif_px(p),
    }
}

} // verus!
