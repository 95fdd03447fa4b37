//! Response header values for served images, built byte-exactly: the cache
//! directives and the download file name.

use vstd::prelude::*;
use crate::image_types::Extensions;
use crate::keys::{digits_of, u64_digits};

verus! {

/// `public, max-age=`
pub open spec fn lit_cache_prefix() -> Seq<u8> {
    seq![0x70u8, 0x75u8, 0x62u8, 0x6cu8, 0x69u8, 0x63u8, 0x2cu8, 0x20u8, 0x6du8, 0x61u8,
        0x78u8, 0x2du8, 0x61u8, 0x67u8, 0x65u8, 0x3du8]
}

/// `, immutable`
pub open spec fn lit_cache_suffix() -> Seq<u8> {
    seq![0x2cu8, 0x20u8, 0x69u8, 0x6du8, 0x6du8, 0x75u8, 0x74u8, 0x61u8, 0x62u8, 0x6cu8,
        0x65u8]
}

/// The value of the `Cache-Control` header for a served image.
pub open spec fn spec_cache_control(ttl: int) -> Seq<u8> {
    lit_cache_prefix() + digits_of(ttl) + lit_cache_suffix()
}

/// Builds the `Cache-Control` value for the configured client cache
/// lifetime: public, immutable, with the exact decimal lifetime.
pub fn cache_control_value(cache_ttl: u64) -> (r: Vec<u8>)
    ensures
        r@ == spec_cache_control(cache_ttl as int),
{
    let prefix: Vec<u8> = vec![0x70u8, 0x75u8, 0x62u8, 0x6cu8, 0x69u8, 0x63u8, 0x2cu8, 0x20u8,
        0x6du8, 0x61u8, 0x78u8, 0x2du8, 0x61u8, 0x67u8, 0x65u8, 0x3du8];
    proof {
        assert(prefix@ =~= lit_cache_prefix());
    }
    let mut out = prefix;
    let digits = u64_digits(cache_ttl);
    append_bytes(&mut out, &digits);
    let suffix: Vec<u8> = vec![0x2cu8, 0x20u8, 0x69u8, 0x6du8, 0x6du8, 0x75u8, 0x74u8, 0x61u8,
        0x62u8, 0x6cu8, 0x65u8];
    proof {
        assert(suffix@ =~= lit_cache_suffix());
    }
    append_bytes(&mut out, &suffix);
    proof {
        assert(out@ =~= spec_cache_control(cache_ttl as int));
    }
    out
}

/// An unreserved byte passes through percent-encoding bare: ASCII letters
/// and digits, minus, dot, underscore and tilde.
pub open spec fn is_unreserved(b: u8) -> bool {
    (0x30u8 <= b && b <= 0x39u8) || (0x41u8 <= b && b <= 0x5au8)
        || (0x61u8 <= b && b <= 0x7au8) || b == 0x2du8 || b == 0x2eu8 || b == 0x5fu8
        || b == 0x7eu8
}

/// The uppercase hexadecimal digit of a value below sixteen.
pub open spec fn hex_digit(x: u8) -> u8 {
    if x < 10 {
        (0x30 + x) as u8
    } else {
        (0x37 + x) as u8
    }
}

/// Percent-encoding: unreserved bytes stay, every other byte becomes a
/// percent sign and two uppercase hexadecimal digits.
pub open spec fn pct_encoded(b: Seq<u8>) -> Seq<u8>
    decreases b.len(),
{
    if b.len() == 0 {
        Seq::empty()
    } else {
        pct_encoded(b.drop_last()) + (if is_unreserved(b.last()) {
            seq![b.last()]
        } else {
            seq![0x25u8, hex_digit(b.last() / 16), hex_digit(b.last() % 16)]
        })
    }
}

fn hex_digit_exec(x: u8) -> (r: u8)
    requires
        x < 16,
    ensures
        r == hex_digit(x),
{
    if x < 10 {
        0x30 + x
    } else {
        0x37 + x
    }
}

fn percent_encode_bytes(b: &Vec<u8>) -> (r: Vec<u8>)
    ensures
        r@ == pct_encoded(b@),
{
    let mut out: Vec<u8> = Vec::new();
    let mut i: usize = 0;
    while i < b.len()
        invariant
            i <= b@.len(),
            out@ =~= pct_encoded(b@.take(i as int)),
        decreases b@.len() - i,
    {
        let c = b[i];
        let unreserved = (0x30 <= c && c <= 0x39) || (0x41 <= c && c <= 0x5a)
            || (0x61 <= c && c <= 0x7a) || c == 0x2d || c == 0x2e || c == 0x5f || c == 0x7e;
        if unreserved {
            out.push(c);
        } else {
            out.push(0x25);
            out.push(hex_digit_exec(c / 16));
            out.push(hex_digit_exec(c % 16));
        }
        i = i + 1;
        proof {
            assert(b@.take(i as int).drop_last() =~= b@.take(i as int - 1));
            assert(b@.take(i as int).last() == b@[i as int - 1]);
            assert(out@ =~= pct_encoded(b@.take(i as int)));
        }
    }
    proof {
        assert(b@.take(b@.len() as int) =~= b@);
    }
    out
}

/// A double quote is prefixed with a backslash; every other byte stays.
pub open spec fn escape_quotes(b: Seq<u8>) -> Seq<u8>
    decreases b.len(),
{
    if b.len() == 0 {
        Seq::empty()
    } else {
        escape_quotes(b.drop_last()) + (if b.last() == 0x22u8 {
            seq![0x5cu8, 0x22u8]
        } else {
            seq![b.last()]
        })
    }
}

fn escape_quotes_exec(b: &Vec<u8>) -> (r: Vec<u8>)
    ensures
        r@ == escape_quotes(b@),
{
    let mut out: Vec<u8> = Vec::new();
    let mut i: usize = 0;
    while i < b.len()
        invariant
            i <= b@.len(),
            out@ =~= escape_quotes(b@.take(i as int)),
        decreases b@.len() - i,
    {
        if b[i] == 0x22 {
            out.push(0x5c);
            out.push(0x22);
        } else {
            out.push(b[i]);
        }
        i = i + 1;
        proof {
            assert(b@.take(i as int).drop_last() =~= b@.take(i as int - 1));
            assert(b@.take(i as int).last() == b@[i as int - 1]);
            assert(out@ =~= escape_quotes(b@.take(i as int)));
        }
    }
    proof {
        assert(b@.take(b@.len() as int) =~= b@);
    }
    out
}

/// `inline; filename="`
pub open spec fn lit_disposition_prefix() -> Seq<u8> {
    seq![0x69u8, 0x6eu8, 0x6cu8, 0x69u8, 0x6eu8, 0x65u8, 0x3bu8, 0x20u8, 0x66u8, 0x69u8,
        0x6cu8, 0x65u8, 0x6eu8, 0x61u8, 0x6du8, 0x65u8, 0x3du8, 0x22u8]
}

/// `"; filename*=UTF-8''`
pub open spec fn lit_disposition_mid() -> Seq<u8> {
    seq![0x22u8, 0x3bu8, 0x20u8, 0x66u8, 0x69u8, 0x6cu8, 0x65u8, 0x6eu8, 0x61u8, 0x6du8,
        0x65u8, 0x2au8, 0x3du8, 0x55u8, 0x54u8, 0x46u8, 0x2du8, 0x38u8, 0x27u8, 0x27u8]
}

/// `image`, the fallback file name.
pub open spec fn lit_image_name() -> Seq<u8> {
    seq![0x69u8, 0x6du8, 0x61u8, 0x67u8, 0x65u8]
}

/// The file-name extension of a format, as bytes.
pub open spec fn ext_name_bytes(e: Extensions) -> Seq<u8> {
    match e {
        Extensions::Webp => seq![0x77u8, 0x65u8, 0x62u8, 0x70u8],
        Extensions::Avif => seq![0x61u8, 0x76u8, 0x69u8, 0x66u8],
        Extensions::PNG => seq![0x70u8, 0x6eu8, 0x67u8],
    }
}

/// The full download name: the given name, or `image`, then a dot and the
/// output extension.
pub open spec fn spec_full_filename(name: Option<Seq<char>>, e: Extensions) -> Seq<u8> {
    (match name {
        Option::None => lit_image_name(),
        Option::Some(n) => vstd::utf8::encode_utf8(n),
    }) + seq![0x2eu8] + ext_name_bytes(e)
}

/// The value of the `Content-Disposition` header: the quoted name with
/// escaped quotes, then the RFC 5987 percent-encoded form (unreserved bytes
/// bare, everything else escaped).
pub open spec fn spec_content_disposition(name: Option<Seq<char>>, e: Extensions) -> Seq<u8> {
    lit_disposition_prefix() + escape_quotes(spec_full_filename(name, e))
        + lit_disposition_mid() + pct_encoded(spec_full_filename(name, e))
}

/// Builds the `Content-Disposition` value announcing the download name of a
/// served image.
pub fn content_disposition_value(filename: &Option<String>, extension: Extensions)
    -> (r: Vec<u8>)
    ensures
        r@ == spec_content_disposition(
            match filename {
                Option::None => Option::None,
                Option::Some(f) => Option::Some(f@),
            }, extension),
{
    let mut full: Vec<u8> = match filename {
        Option::Some(f) => f.as_str().as_bytes_vec(),
        Option::None => {
            let fallback: Vec<u8> = vec![0x69u8, 0x6du8, 0x61u8, 0x67u8, 0x65u8];
            proof {
                assert(fallback@ =~= lit_image_name());
            }
            fallback
        },
    };
    full.push(0x2e);
    let ext: Vec<u8> = match extension {
        Extensions::Webp => vec![0x77u8, 0x65u8, 0x62u8, 0x70u8],
        Extensions::Avif => vec![0x61u8, 0x76u8, 0x69u8, 0x66u8],
        Extensions::PNG => vec![0x70u8, 0x6eu8, 0x67u8],
    };
    proof {
        assert(ext@ =~= ext_name_bytes(extension));
    }
    append_bytes(&mut full, &ext);
    proof {
        assert(full@ =~= spec_full_filename(
            match filename {
                Option::None => Option::None,
                Option::Some(f) => Option::Some(f@),
            }, extension));
    }
    let escaped = escape_quotes_exec(&full);
    let encoded = percent_encode_bytes(&full);
    let prefix: Vec<u8> = vec![0x69u8, 0x6eu8, 0x6cu8, 0x69u8, 0x6eu8, 0x65u8, 0x3bu8, 0x20u8,
        0x66u8, 0x69u8, 0x6cu8, 0x65u8, 0x6eu8, 0x61u8, 0x6du8, 0x65u8, 0x3du8, 0x22u8];
    proof {
        assert(prefix@ =~= lit_disposition_prefix());
    }
    let mut out = prefix;
    append_bytes(&mut out, &escaped);
    let mid: Vec<u8> = vec![0x22u8, 0x3bu8, 0x20u8, 0x66u8, 0x69u8, 0x6cu8, 0x65u8, 0x6eu8,
        0x61u8, 0x6du8, 0x65u8, 0x2au8, 0x3du8, 0x55u8, 0x54u8, 0x46u8, 0x2du8, 0x38u8,
        0x27u8, 0x27u8];
    proof {
        assert(mid@ =~= lit_disposition_mid());
    }
    append_bytes(&mut out, &mid);
    append_bytes(&mut out, &encoded);
    proof {
        assert(out@ =~= spec_content_disposition(
            match filename {
                Option::None => Option::None,
                Option::Some(f) => Option::Some(f@),
            }, extension));
    }
    out
}

fn append_bytes(out: &mut Vec<u8>, bytes: &Vec<u8>)
    ensures
        final(out)@ =~= old(out)@ + bytes@,
{
    let mut i: usize = 0;
    while i < bytes.len()
        invariant
            i <= bytes@.len(),
            out@ =~= old(out)@ + bytes@.take(i as int),
        decreases bytes@.len() - i,
    {
        out.push(bytes[i]);
        i = i + 1;
        proof {
            assert(out@ =~= old(out)@ + bytes@.take(i as int));
        }
    }
    proof {
        assert(bytes@.take(bytes@.len() as int) =~= bytes@);
    }
}

} // verus!
