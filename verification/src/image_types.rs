//! Output image formats served by the proxy.

use vstd::prelude::*;

verus! {

/// Formats a derivative can be encoded to. Whether AVIF output is actually
/// producible depends on the imaging library's build: without its AVIF
/// encoder, requests for it answer with the unsupported-format error.
#[derive(Debug, PartialEq, Eq, Structural, Clone, Copy)]
pub enum Extensions {
    Webp,
    Avif,
    PNG,
}

/// Types that report the MIME type they are served with.
pub trait MimeType {
    /// The MIME type as a mathematical string.
    spec fn spec_mime_type(&self) -> Seq<char>;

    fn mime_type(&self) -> (r: &'static str)
        ensures
            r@ == self.spec_mime_type(),
    ;
}

/// The file-name extension of a format, as a mathematical string.
pub open spec fn spec_extension_name(e: Extensions) -> Seq<char> {
    match e {
        Extensions::Webp => "webp"@,
        Extensions::Avif => "avif"@,
        Extensions::PNG => "png"@,
    }
}

impl Extensions {
    /// The file-name extension for this format.
    pub fn name(&self) -> (r: &'static str)
        ensures
            r@ == spec_extension_name(*self),
    {
        match self {
            Extensions::Webp => "webp",
            Extensions::Avif => "avif",
            Extensions::PNG => "png",
        }
    }
}

impl MimeType for Extensions {
    open spec fn spec_mime_type(&self) -> Seq<char> {
        match *self {
            Extensions::Webp => "image/webp"@,
            Extensions::Avif => "image/avif"@,
            Extensions::PNG => "image/png"@,
        }
    }

    fn mime_type(&self) -> (r: &'static str)
        ensures
            r@ == self.spec_mime_type(),
    {
        match self {
            Extensions::Webp => "image/webp",
            Extensions::Avif => "image/avif",
            Extensions::PNG => "image/png",
        }
    }
}

impl Default for Extensions {
    fn default() -> (r: Self)
        ensures
            r == Extensions::Webp,
    {
        Extensions::Webp
    }
}

/// An input format the processing pipeline can decode, recognized from the
/// magic bytes at the head of a file.
#[derive(Debug, PartialEq, Eq, Structural, Clone, Copy)]
pub enum SniffedFormat {
    Png,
    Jpeg,
    Gif,
    Tiff,
    Bmp,
    Webp,
    Ico,
    Exr,
}

pub open spec fn is_png(b: Seq<u8>) -> bool {
    b.len() >= 8 && b[0] == 0x89u8 && b[1] == 0x50u8 && b[2] == 0x4eu8 && b[3] == 0x47u8
        && b[4] == 0x0du8 && b[5] == 0x0au8 && b[6] == 0x1au8 && b[7] == 0x0au8
}

pub open spec fn is_jpeg(b: Seq<u8>) -> bool {
    b.len() >= 3 && b[0] == 0xffu8 && b[1] == 0xd8u8 && b[2] == 0xffu8
}

pub open spec fn is_gif(b: Seq<u8>) -> bool {
    b.len() >= 6 && b[0] == 0x47u8 && b[1] == 0x49u8 && b[2] == 0x46u8 && b[3] == 0x38u8
        && (b[4] == 0x37u8 || b[4] == 0x39u8) && b[5] == 0x61u8
}

pub open spec fn is_tiff(b: Seq<u8>) -> bool {
    b.len() >= 4 && ((b[0] == 0x49u8 && b[1] == 0x49u8 && b[2] == 0x2au8 && b[3] == 0x00u8)
        || (b[0] == 0x4du8 && b[1] == 0x4du8 && b[2] == 0x00u8 && b[3] == 0x2au8))
}

pub open spec fn is_bmp(b: Seq<u8>) -> bool {
    b.len() >= 2 && b[0] == 0x42u8 && b[1] == 0x4du8
}

pub open spec fn is_webp(b: Seq<u8>) -> bool {
    b.len() >= 12 && b[0] == 0x52u8 && b[1] == 0x49u8 && b[2] == 0x46u8 && b[3] == 0x46u8
        && b[8] == 0x57u8 && b[9] == 0x45u8 && b[10] == 0x42u8 && b[11] == 0x50u8
}

pub open spec fn is_ico(b: Seq<u8>) -> bool {
    b.len() >= 4 && b[0] == 0x00u8 && b[1] == 0x00u8 && b[2] == 0x01u8 && b[3] == 0x00u8
}

pub open spec fn is_exr(b: Seq<u8>) -> bool {
    b.len() >= 4 && b[0] == 0x76u8 && b[1] == 0x2fu8 && b[2] == 0x31u8 && b[3] == 0x01u8
}

/// Which decodable format, if any, the byte prefix announces. Checked in a
/// fixed order; the patterns are mutually exclusive apart from the order.
pub open spec fn spec_sniff(b: Seq<u8>) -> Option<SniffedFormat> {
    if is_png(b) {
        Option::Some(SniffedFormat::Png)
    } else if is_jpeg(b) {
        Option::Some(SniffedFormat::Jpeg)
    } else if is_gif(b) {
        Option::Some(SniffedFormat::Gif)
    } else if is_tiff(b) {
        Option::Some(SniffedFormat::Tiff)
    } else if is_bmp(b) {
        Option::Some(SniffedFormat::Bmp)
    } else if is_webp(b) {
        Option::Some(SniffedFormat::Webp)
    } else if is_ico(b) {
        Option::Some(SniffedFormat::Ico)
    } else if is_exr(b) {
        Option::Some(SniffedFormat::Exr)
    } else {
        Option::None
    }
}

/// Recognizes the image format of raw bytes from their magic prefix, or
/// reports bytes that no supported codec will decode.
pub fn sniff_format(data: &Vec<u8>) -> (r: Option<SniffedFormat>)
    ensures
        r == spec_sniff(data@),
{
    let n = data.len();
    if n >= 8 && data[0] == 0x89 && data[1] == 0x50 && data[2] == 0x4e && data[3] == 0x47
        && data[4] == 0x0d && data[5] == 0x0a && data[6] == 0x1a && data[7] == 0x0a {
        return Option::Some(SniffedFormat::Png);
    }
    if n >= 3 && data[0] == 0xff && data[1] == 0xd8 && data[2] == 0xff {
        return Option::Some(SniffedFormat::Jpeg);
    }
    if n >= 6 && data[0] == 0x47 && data[1] == 0x49 && data[2] == 0x46 && data[3] == 0x38
        && (data[4] == 0x37 || data[4] == 0x39) && data[5] == 0x61 {
        return Option::Some(SniffedFormat::Gif);
    }
    if n >= 4 && ((data[0] == 0x49 && data[1] == 0x49 && data[2] == 0x2a && data[3] == 0x00)
        || (data[0] == 0x4d && data[1] == 0x4d && data[2] == 0x00 && data[3] == 0x2a)) {
        return Option::Some(SniffedFormat::Tiff);
    }
    if n >= 2 && data[0] == 0x42 && data[1] == 0x4d {
        return Option::Some(SniffedFormat::Bmp);
    }
    if n >= 12 && data[0] == 0x52 && data[1] == 0x49 && data[2] == 0x46 && data[3] == 0x46
        && data[8] == 0x57 && data[9] == 0x45 && data[10] == 0x42 && data[11] == 0x50 {
        return Option::Some(SniffedFormat::Webp);
    }
    if n >= 4 && data[0] == 0x00 && data[1] == 0x00 && data[2] == 0x01 && data[3] == 0x00 {
        return Option::Some(SniffedFormat::Ico);
    }
    if n >= 4 && data[0] == 0x76 && data[1] == 0x2f && data[2] == 0x31 && data[3] == 0x01 {
        return Option::Some(SniffedFormat::Exr);
    }
    Option::None
}

impl MimeType for SniffedFormat {
    open spec fn spec_mime_type(&self) -> Seq<char> {
        match *self {
            SniffedFormat::Png => "image/png"@,
            SniffedFormat::Jpeg => "image/jpeg"@,
            SniffedFormat::Gif => "image/gif"@,
            SniffedFormat::Tiff => "image/tiff"@,
            SniffedFormat::Bmp => "image/bmp"@,
            SniffedFormat::Webp => "image/webp"@,
            SniffedFormat::Ico => "image/ico"@,
            SniffedFormat::Exr => "image/exr"@,
        }
    }

    fn mime_type(&self) -> (r: &'static str)
        ensures
            r@ == self.spec_mime_type(),
    {
        match self {
            SniffedFormat::Png => "image/png",
            SniffedFormat::Jpeg => "image/jpeg",
            SniffedFormat::Gif => "image/gif",
            SniffedFormat::Tiff => "image/tiff",
            SniffedFormat::Bmp => "image/bmp",
            SniffedFormat::Webp => "image/webp",
            SniffedFormat::Ico => "image/ico",
            SniffedFormat::Exr => "image/exr",
        }
    }
}

} // verus!
