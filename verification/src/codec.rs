//! Compact binary serialization for what the persistent tiers store: the
//! per-identifier variant index (a sorted parameter list) and encoded images.
//!
//! Encoders pin the exact bytes produced; decoders are full inverses: they
//! return only values that re-encode to their input, and they accept every
//! encoding, returning the one value that produced it (the injectivity
//! lemmas make that value unique).

use vstd::prelude::*;
use crate::image_processing::{ProcessingParams, RatioPolicy};
use crate::image_types::Extensions;
use crate::types::{ImageContainer, ImageContainerView};

verus! {

/// A `u32` as four little-endian bytes.
pub open spec fn enc_u32(x: u32) -> Seq<u8> {
    seq![
        (x & 0xff) as u8,
        ((x >> 8) & 0xff) as u8,
        ((x >> 16) & 0xff) as u8,
        ((x >> 24) & 0xff) as u8,
    ]
}

/// Four little-endian bytes as a `u32`.
pub open spec fn dec_u32(b0: u8, b1: u8, b2: u8, b3: u8) -> u32 {
    (b0 as u32) | ((b1 as u32) << 8) | ((b2 as u32) << 16) | ((b3 as u32) << 24)
}

/// Decoding inverts encoding, and encodings are unique.
pub proof fn lemma_u32_roundtrip(x: u32)
    ensures
        dec_u32(enc_u32(x)[0], enc_u32(x)[1], enc_u32(x)[2], enc_u32(x)[3]) == x,
{
    assert(((x & 0xff) as u8 as u32) | (((x >> 8) & 0xff) as u8 as u32) << 8
        | (((x >> 16) & 0xff) as u8 as u32) << 16 | (((x >> 24) & 0xff) as u8 as u32) << 24
        == x) by (bit_vector);
}

/// Re-encoding decoded bytes reproduces them.
pub proof fn lemma_u32_reencode(b0: u8, b1: u8, b2: u8, b3: u8)
    ensures
        enc_u32(dec_u32(b0, b1, b2, b3)) =~= seq![b0, b1, b2, b3],
{
    let x = dec_u32(b0, b1, b2, b3);
    assert((x & 0xff) as u8 == b0 && ((x >> 8) & 0xff) as u8 == b1
        && ((x >> 16) & 0xff) as u8 == b2 && ((x >> 24) & 0xff) as u8 == b3) by (bit_vector)
        requires
            x == (b0 as u32) | ((b1 as u32) << 8) | ((b2 as u32) << 16) | ((b3 as u32) << 24),
    ;
}

/// An optional `u32` as a tag byte and four payload bytes (zero when absent).
pub open spec fn enc_opt_u32(o: Option<u32>) -> Seq<u8> {
    match o {
        Option::None => seq![0u8, 0u8, 0u8, 0u8, 0u8],
        Option::Some(x) => seq![1u8] + enc_u32(x),
    }
}

pub open spec fn ext_tag(e: Extensions) -> u8 {
    match e {
        Extensions::Webp => 0u8,
        Extensions::Avif => 1u8,
        Extensions::PNG => 2u8,
    }
}

pub open spec fn policy_tag(p: RatioPolicy) -> u8 {
    match p {
        RatioPolicy::Resize => 0u8,
        RatioPolicy::CropToCenter => 1u8,
    }
}

pub open spec fn enc_opt_ext(o: Option<Extensions>) -> Seq<u8> {
    match o {
        Option::None => seq![0u8, 0u8],
        Option::Some(e) => seq![1u8, ext_tag(e)],
    }
}

pub open spec fn enc_opt_policy(o: Option<RatioPolicy>) -> Seq<u8> {
    match o {
        Option::None => seq![0u8, 0u8],
        Option::Some(p) => seq![1u8, policy_tag(p)],
    }
}

/// One parameter record as nineteen bytes.
pub open spec fn enc_params(p: ProcessingParams) -> Seq<u8> {
    enc_opt_u32(p.width) + enc_opt_u32(p.height) + enc_opt_ext(p.extension)
        + enc_opt_u32(p.quality) + enc_opt_policy(p.ratio_policy)
}

/// A parameter list, record after record.
pub open spec fn enc_params_seq(ps: Seq<ProcessingParams>) -> Seq<u8>
    decreases ps.len(),
{
    if ps.len() == 0 {
        Seq::empty()
    } else {
        enc_params_seq(ps.drop_last()) + enc_params(ps.last())
    }
}

/// A variant index: the record count, then the records.
pub open spec fn enc_params_list(ps: Seq<ProcessingParams>) -> Seq<u8> {
    enc_u32(ps.len() as u32) + enc_params_seq(ps)
}

/// An encoded image: its bytes length-prefixed, the optional file name as
/// length-prefixed UTF-8, and the format tag.
pub open spec fn enc_container(c: ImageContainerView) -> Seq<u8> {
    enc_u32(c.data.len() as u32) + c.data + (match c.filename {
        Option::None => seq![0u8],
        Option::Some(f) => seq![1u8] + enc_u32(vstd::utf8::encode_utf8(f).len() as u32)
            + vstd::utf8::encode_utf8(f),
    }) + seq![ext_tag(c.extension)]
}

fn push_u32(out: &mut Vec<u8>, x: u32)
    ensures
        final(out)@ =~= old(out)@ + enc_u32(x),
{
    out.push((x & 0xff) as u8);
    out.push(((x >> 8) & 0xff) as u8);
    out.push(((x >> 16) & 0xff) as u8);
    out.push(((x >> 24) & 0xff) as u8);
}

fn push_opt_u32(out: &mut Vec<u8>, o: &Option<u32>)
    ensures
        final(out)@ =~= old(out)@ + enc_opt_u32(*o),
{
    match o {
        Option::None => {
            out.push(0);
            out.push(0);
            out.push(0);
            out.push(0);
            out.push(0);
        },
        Option::Some(x) => {
            out.push(1);
            push_u32(out, *x);
        },
    }
}

fn ext_tag_exec(e: &Extensions) -> (r: u8)
    ensures
        r == ext_tag(*e),
{
    match e {
        Extensions::Webp => 0,
        Extensions::Avif => 1,
        Extensions::PNG => 2,
    }
}

fn push_opt_ext(out: &mut Vec<u8>, o: &Option<Extensions>)
    ensures
        final(out)@ =~= old(out)@ + enc_opt_ext(*o),
{
    match o {
        Option::None => {
            out.push(0);
            out.push(0);
        },
        Option::Some(e) => {
            out.push(1);
            out.push(ext_tag_exec(e));
        },
    }
}

fn push_opt_policy(out: &mut Vec<u8>, o: &Option<RatioPolicy>)
    ensures
        final(out)@ =~= old(out)@ + enc_opt_policy(*o),
{
    match o {
        Option::None => {
            out.push(0);
            out.push(0);
        },
        Option::Some(p) => {
            out.push(1);
            match p {
                RatioPolicy::Resize => out.push(0),
                RatioPolicy::CropToCenter => out.push(1),
            }
        },
    }
}

fn push_params(out: &mut Vec<u8>, p: &ProcessingParams)
    ensures
        final(out)@ =~= old(out)@ + enc_params(*p),
{
    push_opt_u32(out, &p.width);
    push_opt_u32(out, &p.height);
    push_opt_ext(out, &p.extension);
    push_opt_u32(out, &p.quality);
    push_opt_policy(out, &p.ratio_policy);
}

/// Serializes a variant index.
pub fn encode_params_list(ps: &Vec<ProcessingParams>) -> (r: Vec<u8>)
    requires
        ps@.len() <= u32::MAX,
    ensures
        r@ == enc_params_list(ps@),
{
    let mut out: Vec<u8> = Vec::new();
    push_u32(&mut out, ps.len() as u32);
    let mut k: usize = 0;
    while k < ps.len()
        invariant
            k <= ps@.len(),
            ps@.len() <= u32::MAX,
            out@ =~= enc_u32(ps@.len() as u32) + enc_params_seq(ps@.take(k as int)),
        decreases ps@.len() - k,
    {
        push_params(&mut out, &ps[k]);
        proof {
            assert(ps@.take(k as int + 1).drop_last() =~= ps@.take(k as int));
            assert(ps@.take(k as int + 1).last() == ps@[k as int]);
        }
        k = k + 1;
    }
    proof {
        assert(ps@.take(ps@.len() as int) =~= ps@);
    }
    out
}

/// Serializes an encoded image.
pub fn encode_container(c: &ImageContainer) -> (r: Vec<u8>)
    requires
        c.data@.len() <= u32::MAX,
        c.filename matches Some(f) ==> vstd::utf8::encode_utf8(f@).len() <= u32::MAX,
    ensures
        r@ == enc_container(c@),
{
    let mut out: Vec<u8> = Vec::new();
    push_u32(&mut out, c.data.len() as u32);
    let mut i: usize = 0;
    let data: &Vec<u8> = &c.data;
    while i < data.len()
        invariant
            i <= data@.len(),
            data@.len() <= u32::MAX,
            out@ =~= enc_u32(data@.len() as u32) + data@.take(i as int),
        decreases data@.len() - i,
    {
        out.push(data[i]);
        i = i + 1;
        proof {
            assert(out@ =~= enc_u32(data@.len() as u32) + data@.take(i as int));
        }
    }
    proof {
        assert(data@.take(data@.len() as int) =~= data@);
    }
    match &c.filename {
        Option::None => {
            out.push(0);
        },
        Option::Some(f) => {
            out.push(1);
            let fb = f.as_str().as_bytes_vec();
            push_u32(&mut out, fb.len() as u32);
            let mut j: usize = 0;
            let ghost base = out@;
            while j < fb.len()
                invariant
                    j <= fb@.len(),
                    out@ =~= base + fb@.take(j as int),
                decreases fb@.len() - j,
            {
                out.push(fb[j]);
                j = j + 1;
                proof {
                    assert(out@ =~= base + fb@.take(j as int));
                }
            }
            proof {
                assert(fb@.take(fb@.len() as int) =~= fb@);
            }
        },
    }
    match &c.extension {
        Extensions::Webp => out.push(0),
        Extensions::Avif => out.push(1),
        Extensions::PNG => out.push(2),
    }
    proof {
        assert(out@ =~= enc_container(c@));
    }
    out
}

/// Relies on `String::from_utf8`: it fails exactly on bytes that are not
/// well-formed UTF-8, and on success the returned string's UTF-8 encoding is
/// exactly the input bytes.
#[verifier::external_body]
pub(crate) fn bytes_to_string(b: Vec<u8>) -> (r: Option<String>)
    ensures
        r matches Some(s) ==> vstd::utf8::encode_utf8(s@) == b@,
        vstd::utf8::valid_utf8(b@) ==> r is Some,
{
    String::from_utf8(b).ok()
}

fn read_u32(b: &Vec<u8>, off: usize) -> (r: u32)
    requires
        off + 4 <= b@.len(),
    ensures
        enc_u32(r) =~= b@.subrange(off as int, off as int + 4),
{
    let n = b.len();
    let x: u32 = (b[off] as u32) | ((b[off + 1] as u32) << 8) | ((b[off + 2] as u32) << 16)
        | ((b[off + 3] as u32) << 24);
    proof {
        lemma_u32_reencode(b@[off as int], b@[off as int + 1], b@[off as int + 2],
            b@[off as int + 3]);
        assert(enc_u32(x) =~= seq![b@[off as int], b@[off as int + 1], b@[off as int + 2],
            b@[off as int + 3]]);
        assert(b@.subrange(off as int, off as int + 4) =~= seq![b@[off as int],
            b@[off as int + 1], b@[off as int + 2], b@[off as int + 3]]);
    }
    x
}

fn parse_opt_u32(b: &Vec<u8>, off: usize) -> (r: Option<Option<u32>>)
    requires
        off + 5 <= b@.len(),
    ensures
        r matches Some(o) ==> enc_opt_u32(o) =~= b@.subrange(off as int, off as int + 5),
        forall|o: Option<u32>| b@.subrange(off as int, off as int + 5) == enc_opt_u32(o)
            ==> r == Option::Some(o),
{
    let n = b.len();
    let ghost w = b@.subrange(off as int, off as int + 5);
    let tag = b[off];
    proof {
        assert(w[0] == b@[off as int] && w[1] == b@[off as int + 1]
            && w[2] == b@[off as int + 2] && w[3] == b@[off as int + 3]
            && w[4] == b@[off as int + 4]);
    }
    if tag == 0 {
        if b[off + 1] == 0 && b[off + 2] == 0 && b[off + 3] == 0 && b[off + 4] == 0 {
            proof {
                assert(w =~= seq![0u8, 0u8, 0u8, 0u8, 0u8]);
            }
            Option::Some(Option::None)
        } else {
            proof {
                assert forall|o: Option<u32>| w == enc_opt_u32(o)
                    implies false by {
                    if o is Some {
                        assert(enc_opt_u32(o)[0] == 1u8);
                    }
                }
            }
            Option::None
        }
    } else if tag == 1 {
        let x = read_u32(b, off + 1);
        proof {
            assert(w =~= seq![1u8] + b@.subrange(off as int + 1, off as int + 5));
            assert forall|o: Option<u32>| w == enc_opt_u32(o)
                implies Option::Some(Option::Some(x)) == Option::<Option<u32>>::Some(o) by {
                if o is Some {
                    let y = o->Some_0;
                    assert(enc_u32(y) =~= w.subrange(1, 5));
                    assert(w.subrange(1, 5) =~= b@.subrange(off as int + 1, off as int + 5));
                    lemma_enc_u32_injective(x, y);
                } else {
                    assert(enc_opt_u32(o)[0] == 0u8);
                }
            }
        }
        Option::Some(Option::Some(x))
    } else {
        proof {
            assert forall|o: Option<u32>| w == enc_opt_u32(o) implies false by {
                if o is Some {
                    assert(enc_opt_u32(o)[0] == 1u8);
                } else {
                    assert(enc_opt_u32(o)[0] == 0u8);
                }
            }
        }
        Option::None
    }
}

fn parse_opt_ext(b: &Vec<u8>, off: usize) -> (r: Option<Option<Extensions>>)
    requires
        off + 2 <= b@.len(),
    ensures
        r matches Some(o) ==> enc_opt_ext(o) =~= b@.subrange(off as int, off as int + 2),
        forall|o: Option<Extensions>| b@.subrange(off as int, off as int + 2) == enc_opt_ext(o)
            ==> r == Option::Some(o),
{
    let n = b.len();
    let tag = b[off];
    let v = b[off + 1];
    proof {
        assert(b@.subrange(off as int, off as int + 2)
            =~= seq![b@[off as int], b@[off as int + 1]]);
        assert forall|o: Option<Extensions>|
            b@.subrange(off as int, off as int + 2) == enc_opt_ext(o)
            implies enc_opt_ext(o)[0] == tag && enc_opt_ext(o)[1] == v by {
        }
    }
    if tag == 0 && v == 0 {
        Option::Some(Option::None)
    } else if tag == 1 && v == 0 {
        Option::Some(Option::Some(Extensions::Webp))
    } else if tag == 1 && v == 1 {
        Option::Some(Option::Some(Extensions::Avif))
    } else if tag == 1 && v == 2 {
        Option::Some(Option::Some(Extensions::PNG))
    } else {
        Option::None
    }
}

fn parse_opt_policy(b: &Vec<u8>, off: usize) -> (r: Option<Option<RatioPolicy>>)
    requires
        off + 2 <= b@.len(),
    ensures
        r matches Some(o) ==> enc_opt_policy(o) =~= b@.subrange(off as int, off as int + 2),
        forall|o: Option<RatioPolicy>| b@.subrange(off as int, off as int + 2)
            == enc_opt_policy(o) ==> r == Option::Some(o),
{
    let n = b.len();
    let tag = b[off];
    let v = b[off + 1];
    proof {
        assert(b@.subrange(off as int, off as int + 2)
            =~= seq![b@[off as int], b@[off as int + 1]]);
        assert forall|o: Option<RatioPolicy>|
            b@.subrange(off as int, off as int + 2) == enc_opt_policy(o)
            implies enc_opt_policy(o)[0] == tag && enc_opt_policy(o)[1] == v by {
        }
    }
    if tag == 0 && v == 0 {
        Option::Some(Option::None)
    } else if tag == 1 && v == 0 {
        Option::Some(Option::Some(RatioPolicy::Resize))
    } else if tag == 1 && v == 1 {
        Option::Some(Option::Some(RatioPolicy::CropToCenter))
    } else {
        Option::None
    }
}

fn parse_params(b: &Vec<u8>, off: usize) -> (r: Option<ProcessingParams>)
    requires
        off + 19 <= b@.len(),
    ensures
        r matches Some(p) ==> enc_params(p) =~= b@.subrange(off as int, off as int + 19),
        forall|p2: ProcessingParams| b@.subrange(off as int, off as int + 19) == enc_params(p2)
            ==> r == Option::Some(p2),
{
    let n = b.len();
    let width_r = parse_opt_u32(b, off);
    let height_r = parse_opt_u32(b, off + 5);
    let ext_r = parse_opt_ext(b, off + 10);
    let quality_r = parse_opt_u32(b, off + 12);
    let policy_r = parse_opt_policy(b, off + 17);
    proof {
        assert forall|p2: ProcessingParams|
            b@.subrange(off as int, off as int + 19) == enc_params(p2)
            implies width_r == Option::Some(p2.width)
                && height_r == Option::Some(p2.height)
                && ext_r == Option::Some(p2.extension)
                && quality_r == Option::Some(p2.quality)
                && policy_r == Option::Some(p2.ratio_policy) by {
            let w19 = b@.subrange(off as int, off as int + 19);
            assert(enc_opt_u32(p2.width) =~= w19.subrange(0, 5));
            assert(enc_opt_u32(p2.height) =~= w19.subrange(5, 10));
            assert(enc_opt_ext(p2.extension) =~= w19.subrange(10, 12));
            assert(enc_opt_u32(p2.quality) =~= w19.subrange(12, 17));
            assert(enc_opt_policy(p2.ratio_policy) =~= w19.subrange(17, 19));
            assert(b@.subrange(off as int, off as int + 5) =~= w19.subrange(0, 5));
            assert(b@.subrange(off as int + 5, off as int + 10) =~= w19.subrange(5, 10));
            assert(b@.subrange(off as int + 10, off as int + 12) =~= w19.subrange(10, 12));
            assert(b@.subrange(off as int + 12, off as int + 17) =~= w19.subrange(12, 17));
            assert(b@.subrange(off as int + 17, off as int + 19) =~= w19.subrange(17, 19));
        }
    }
    match (width_r, height_r, ext_r, quality_r, policy_r) {
        (Option::Some(width), Option::Some(height), Option::Some(extension),
            Option::Some(quality), Option::Some(ratio_policy)) => {
            let p = ProcessingParams { width, height, extension, quality, ratio_policy };
            proof {
                assert(b@.subrange(off as int, off as int + 19)
                    =~= b@.subrange(off as int, off as int + 5)
                    + b@.subrange(off as int + 5, off as int + 10)
                    + b@.subrange(off as int + 10, off as int + 12)
                    + b@.subrange(off as int + 12, off as int + 17)
                    + b@.subrange(off as int + 17, off as int + 19));
            }
            Option::Some(p)
        },
        _ => Option::None,
    }
}

/// Each record of a serialized list sits at its fixed offset.
proof fn lemma_enc_params_seq_index(v: Seq<ProcessingParams>, k: int)
    requires
        0 <= k < v.len(),
    ensures
        enc_params_seq(v).subrange(19 * k, 19 * k + 19) =~= enc_params(v[k]),
    decreases v.len(),
{
    lemma_enc_params_seq_len(v);
    lemma_enc_params_seq_len(v.drop_last());
    if k == v.len() - 1 {
        assert(enc_params_seq(v).subrange(19 * k, 19 * k + 19) =~= enc_params(v.last()));
    } else {
        lemma_enc_params_seq_index(v.drop_last(), k);
        assert(enc_params_seq(v).subrange(19 * k, 19 * k + 19)
            =~= enc_params_seq(v.drop_last()).subrange(19 * k, 19 * k + 19));
    }
}

/// Deserializes a variant index. A returned list re-encodes to exactly the
/// input, and every encoded list is accepted and returned: the decoder is a
/// full inverse of the encoder.
pub fn decode_params_list(b: &Vec<u8>) -> (r: Option<Vec<ProcessingParams>>)
    ensures
        r matches Some(ps) ==> ps@.len() <= u32::MAX && b@ == enc_params_list(ps@),
        forall|v: Seq<ProcessingParams>| v.len() <= u32::MAX && b@ == enc_params_list(v)
            ==> (r matches Some(ps) && ps@ == v),
{
    let ghost ov: Option<Seq<ProcessingParams>> = if exists|v: Seq<ProcessingParams>|
        v.len() <= u32::MAX && b@ == enc_params_list(v) {
        Option::Some(choose|v: Seq<ProcessingParams>| v.len() <= u32::MAX
            && b@ == enc_params_list(v))
    } else {
        Option::None
    };
    proof {
        if ov is Some {
            let v = ov->Some_0;
            lemma_enc_params_seq_len(v);
        }
    }
    if b.len() < 4 {
        return Option::None;
    }
    let count = read_u32(b, 0);
    proof {
        if ov is Some {
            let v = ov->Some_0;
            assert(enc_u32(v.len() as u32) =~= b@.subrange(0, 4));
            lemma_enc_u32_injective(count, v.len() as u32);
        }
    }
    let mut out: Vec<ProcessingParams> = Vec::new();
    let mut off: usize = 4;
    let mut k: u32 = 0;
    while k < count
        invariant
            k <= count,
            out@.len() == k,
            4 <= off <= b@.len(),
            off == 4 + 19 * k,
            enc_u32(count) =~= b@.subrange(0, 4),
            enc_params_seq(out@) =~= b@.subrange(4, off as int),
            ov == (if exists|v: Seq<ProcessingParams>| v.len() <= u32::MAX
                && b@ == enc_params_list(v) {
                Option::Some(choose|v: Seq<ProcessingParams>| v.len() <= u32::MAX
                    && b@ == enc_params_list(v))
            } else {
                Option::<Seq<ProcessingParams>>::None
            }),
            ov matches Some(v) ==> v.len() == count && b@.len() == 4 + 19 * v.len()
                && out@ =~= v.take(k as int),
        decreases count - k,
    {
        if b.len() - off < 19 {
            proof {
                if ov is Some {
                    assert(false);
                }
            }
            return Option::None;
        }
        proof {
            if ov is Some {
                let v = ov->Some_0;
                assert(b@.subrange(off as int, off as int + 19)
                    =~= enc_params_seq(v).subrange(19 * k as int, 19 * k as int + 19)) by {
                    assert(enc_params_seq(v) =~= b@.subrange(4, b@.len() as int));
                }
                lemma_enc_params_seq_index(v, k as int);
            }
        }
        let p = match parse_params(b, off) {
            Option::Some(p) => p,
            Option::None => {
                proof {
                    if ov is Some {
                        assert(false);
                    }
                }
                return Option::None;
            },
        };
        let ghost outpre = out@;
        out.push(p);
        proof {
            assert(out@.drop_last() =~= outpre);
            assert(out@.last() == p);
            assert(enc_params_seq(out@)
                =~= b@.subrange(4, off as int) + b@.subrange(off as int, off as int + 19));
            assert(b@.subrange(4, off as int) + b@.subrange(off as int, off as int + 19)
                =~= b@.subrange(4, off as int + 19));
            if ov is Some {
                let v = ov->Some_0;
                assert(p == v[k as int]);
                assert(out@ =~= v.take(k as int + 1));
            }
        }
        off = off + 19;
        k = k + 1;
    }
    if off != b.len() {
        proof {
            if ov is Some {
                assert(false);
            }
        }
        return Option::None;
    }
    proof {
        assert(b@ =~= b@.subrange(0, 4) + b@.subrange(4, b@.len() as int));
        assert(out@.len() == count);
        assert(b@ =~= enc_params_list(out@));
        assert forall|v: Seq<ProcessingParams>| v.len() <= u32::MAX && b@ == enc_params_list(v)
            implies out@ == v by {
            lemma_enc_params_list_injective(out@, v);
        }
    }
    Option::Some(out)
}

/// Deserializes an encoded image. A returned container re-encodes to
/// exactly the input, and every encoding that fits the framing is accepted
/// and returned: the decoder is a full inverse of the encoder.
#[verifier::rlimit(100)]
pub fn decode_container(b: &Vec<u8>) -> (r: Option<ImageContainer>)
    ensures
        r matches Some(c) ==> b@ == enc_container(c@),
        forall|cv: ImageContainerView| cv.data.len() <= u32::MAX
            && (cv.filename matches Some(f) ==> vstd::utf8::encode_utf8(f).len() <= u32::MAX)
            && b@ == enc_container(cv)
            ==> (r matches Some(c) && c@ == cv),
{
    let ghost ocv: Option<ImageContainerView> = if exists|cv: ImageContainerView|
        cv.data.len() <= u32::MAX
        && (cv.filename matches Some(f) ==> vstd::utf8::encode_utf8(f).len() <= u32::MAX)
        && b@ == enc_container(cv) {
        Option::Some(choose|cv: ImageContainerView| cv.data.len() <= u32::MAX
            && (cv.filename matches Some(f) ==> vstd::utf8::encode_utf8(f).len() <= u32::MAX)
            && b@ == enc_container(cv))
    } else {
        Option::None
    };
    let ghost gfb: Seq<u8> = if ocv is Some {
        match ocv->Some_0.filename {
            Option::None => seq![0u8],
            Option::Some(f) => seq![1u8]
                + enc_u32(vstd::utf8::encode_utf8(f).len() as u32)
                + vstd::utf8::encode_utf8(f),
        }
    } else {
        Seq::empty()
    };
    proof {
        if ocv is Some {
            let cv = ocv->Some_0;
            assert(b@.len() == 4 + cv.data.len() + gfb.len() + 1);
            assert(gfb.len() >= 1);
        }
    }
    if b.len() < 4 {
        return Option::None;
    }
    let dlen = read_u32(b, 0);
    proof {
        if ocv is Some {
            let cv = ocv->Some_0;
            assert(enc_u32(cv.data.len() as u32) =~= b@.subrange(0, 4));
            lemma_enc_u32_injective(dlen, cv.data.len() as u32);
        }
    }
    if ((b.len() - 4) as u64) < (dlen as u64) {
        proof {
            if ocv is Some {
                assert(false);
            }
        }
        return Option::None;
    }
    let dl = dlen as usize;
    let mut data: Vec<u8> = Vec::new();
    let mut i: usize = 0;
    while i < dl
        invariant
            i <= dl,
            4 + dl <= b@.len(),
            b@.len() <= usize::MAX,
            data@ =~= b@.subrange(4, 4 + i as int),
        decreases dl - i,
    {
        data.push(b[4 + i]);
        i = i + 1;
        proof {
            assert(data@ =~= b@.subrange(4, 4 + i as int));
        }
    }
    proof {
        if ocv is Some {
            let cv = ocv->Some_0;
            assert(data@ =~= cv.data);
        }
    }
    let mut off: usize = 4 + dl;
    if b.len() - off < 1 {
        proof {
            if ocv is Some {
                assert(false);
            }
        }
        return Option::None;
    }
    let ftag = b[off];
    proof {
        if ocv is Some {
            assert(ftag == gfb[0]) by {
                assert(b@[off as int] == gfb[0]);
            }
        }
    }
    let filename: Option<String>;
    let ghost fbytes: Seq<u8>;
    if ftag == 0 {
        filename = Option::None;
        proof {
            fbytes = seq![0u8];
            assert(fbytes =~= b@.subrange(off as int, off as int + 1));
            if ocv is Some {
                let cv = ocv->Some_0;
                assert(cv.filename is None);
            }
        }
        off = off + 1;
    } else if ftag == 1 {
        proof {
            if ocv is Some {
                let cv = ocv->Some_0;
                assert(cv.filename is Some);
            }
        }
        if b.len() - off < 5 {
            proof {
                if ocv is Some {
                    assert(false);
                }
            }
            return Option::None;
        }
        let flen = read_u32(b, off + 1);
        proof {
            if ocv is Some {
                let cv = ocv->Some_0;
                let f = cv.filename->Some_0;
                assert(enc_u32(vstd::utf8::encode_utf8(f).len() as u32)
                    =~= b@.subrange(off as int + 1, off as int + 5)) by {
                    assert(gfb.subrange(1, 5)
                        =~= enc_u32(vstd::utf8::encode_utf8(f).len() as u32));
                    assert(b@.subrange(off as int + 1, off as int + 5) =~= gfb.subrange(1, 5));
                }
                lemma_enc_u32_injective(flen, vstd::utf8::encode_utf8(f).len() as u32);
            }
        }
        if ((b.len() - off - 5) as u64) < (flen as u64) {
            proof {
                if ocv is Some {
                    assert(false);
                }
            }
            return Option::None;
        }
        let fl = flen as usize;
        let mut fb: Vec<u8> = Vec::new();
        let mut j: usize = 0;
        while j < fl
            invariant
                j <= fl,
                off + 5 + fl <= b@.len(),
                b@.len() <= usize::MAX,
                fb@ =~= b@.subrange(off as int + 5, off as int + 5 + j as int),
            decreases fl - j,
        {
            fb.push(b[off + 5 + j]);
            j = j + 1;
            proof {
                assert(fb@ =~= b@.subrange(off as int + 5, off as int + 5 + j as int));
            }
        }
        let ghost fbv = fb@;
        proof {
            if ocv is Some {
                let cv = ocv->Some_0;
                let f = cv.filename->Some_0;
                assert(fbv =~= vstd::utf8::encode_utf8(f)) by {
                    assert(gfb.subrange(5, gfb.len() as int)
                        =~= vstd::utf8::encode_utf8(f));
                    assert(b@.subrange(off as int + 5, off as int + 5 + fl as int)
                        =~= gfb.subrange(5, gfb.len() as int));
                }
            }
        }
        let st = match bytes_to_string(fb) {
            Option::Some(st) => st,
            Option::None => {
                proof {
                    if ocv is Some {
                        let cv = ocv->Some_0;
                        vstd::utf8::encode_utf8_valid_utf8(cv.filename->Some_0);
                        assert(false);
                    }
                }
                return Option::None;
            },
        };
        proof {
            fbytes = seq![1u8] + enc_u32(flen) + fbv;
            assert(fbytes =~= b@.subrange(off as int, off as int + 5 + fl as int));
            assert(vstd::utf8::encode_utf8(st@) == fbv);
            if ocv is Some {
                let cv = ocv->Some_0;
                let f = cv.filename->Some_0;
                assert(st@ == f) by {
                    vstd::utf8::encode_utf8_decode_utf8(st@);
                    vstd::utf8::encode_utf8_decode_utf8(f);
                }
            }
        }
        filename = Option::Some(st);
        off = off + 5 + fl;
    } else {
        proof {
            if ocv is Some {
                let cv = ocv->Some_0;
                if cv.filename is Some {
                    assert(gfb[0] == 1u8);
                } else {
                    assert(gfb[0] == 0u8);
                }
            }
        }
        return Option::None;
    }
    if b.len() - off != 1 {
        proof {
            if ocv is Some {
                assert(b@.len() == off + 1) by {
                    assert(fbytes =~= gfb);
                }
                assert(false);
            }
        }
        return Option::None;
    }
    let etag = b[off];
    proof {
        if ocv is Some {
            let cv = ocv->Some_0;
            assert(etag == ext_tag(cv.extension)) by {
                assert(b@[off as int] == ext_tag(cv.extension));
            }
        }
    }
    let extension: Extensions = if etag == 0 {
        Extensions::Webp
    } else if etag == 1 {
        Extensions::Avif
    } else if etag == 2 {
        Extensions::PNG
    } else {
        proof {
            if ocv is Some {
                assert(false);
            }
        }
        return Option::None;
    };
    let c = ImageContainer { data: Box::new(data), filename, extension };
    proof {
        assert(b@ =~= b@.subrange(0, 4) + b@.subrange(4, 4 + dl as int)
            + b@.subrange(4 + dl as int, off as int) + b@.subrange(off as int, b@.len() as int));
        assert(b@.subrange(4 + dl as int, off as int) =~= fbytes);
        assert(b@.subrange(off as int, b@.len() as int) =~= seq![etag]);
        assert(c@.data =~= b@.subrange(4, 4 + dl as int));
        assert(b@ =~= enc_container(c@));
        assert forall|cv: ImageContainerView| cv.data.len() <= u32::MAX
            && (cv.filename matches Some(f)
                ==> vstd::utf8::encode_utf8(f).len() <= u32::MAX)
            && b@ == enc_container(cv)
            implies c@ == cv by {
            lemma_enc_container_injective(c@, cv);
        }
    }
    Option::Some(c)
}

/// Two containers that fit the framing never share a byte image.
pub proof fn lemma_enc_container_injective(c1: ImageContainerView, c2: ImageContainerView)
    requires
        c1.data.len() <= u32::MAX,
        c2.data.len() <= u32::MAX,
        c1.filename matches Some(f) ==> vstd::utf8::encode_utf8(f).len() <= u32::MAX,
        c2.filename matches Some(f) ==> vstd::utf8::encode_utf8(f).len() <= u32::MAX,
        enc_container(c1) == enc_container(c2),
    ensures
        c1 == c2,
{
    let e1 = enc_container(c1);
    let e2 = enc_container(c2);
    let fb1: Seq<u8> = match c1.filename {
        Option::None => seq![0u8],
        Option::Some(f) => seq![1u8] + enc_u32(vstd::utf8::encode_utf8(f).len() as u32)
            + vstd::utf8::encode_utf8(f),
    };
    let fb2: Seq<u8> = match c2.filename {
        Option::None => seq![0u8],
        Option::Some(f) => seq![1u8] + enc_u32(vstd::utf8::encode_utf8(f).len() as u32)
            + vstd::utf8::encode_utf8(f),
    };
    assert(enc_u32(c1.data.len() as u32) =~= e1.subrange(0, 4));
    assert(enc_u32(c2.data.len() as u32) =~= e2.subrange(0, 4));
    lemma_enc_u32_injective(c1.data.len() as u32, c2.data.len() as u32);
    let dl = c1.data.len() as int;
    assert(c1.data =~= c2.data) by {
        assert(c1.data =~= e1.subrange(4, 4 + dl));
        assert(c2.data =~= e2.subrange(4, 4 + dl));
    }
    assert(fb1[0] == e1[4 + dl]);
    assert(fb2[0] == e2[4 + dl]);
    match (c1.filename, c2.filename) {
        (Option::None, Option::None) => {
        },
        (Option::Some(f1), Option::Some(f2)) => {
            let u1 = vstd::utf8::encode_utf8(f1);
            let u2 = vstd::utf8::encode_utf8(f2);
            assert(enc_u32(u1.len() as u32) =~= e1.subrange(4 + dl + 1, 4 + dl + 5));
            assert(enc_u32(u2.len() as u32) =~= e2.subrange(4 + dl + 1, 4 + dl + 5));
            lemma_enc_u32_injective(u1.len() as u32, u2.len() as u32);
            let fl = u1.len() as int;
            assert(u1 =~= u2) by {
                assert(u1 =~= e1.subrange(4 + dl + 5, 4 + dl + 5 + fl));
                assert(u2 =~= e2.subrange(4 + dl + 5, 4 + dl + 5 + fl));
            }
            assert(f1 == f2) by {
                vstd::utf8::encode_utf8_decode_utf8(f1);
                vstd::utf8::encode_utf8_decode_utf8(f2);
            }
        },
        (Option::None, Option::Some(f2)) => {
            assert(fb1[0] == 0u8 && fb2[0] == 1u8);
        },
        (Option::Some(f1), Option::None) => {
            assert(fb1[0] == 1u8 && fb2[0] == 0u8);
        },
    }
    assert(fb1.len() == fb2.len());
    assert(ext_tag(c1.extension) == e1.last()) by {
        assert(e1.len() == 4 + dl + fb1.len() + 1);
    }
    assert(ext_tag(c2.extension) == e2.last()) by {
        assert(e2.len() == 4 + dl + fb2.len() + 1);
    }
    assert(c1.extension == c2.extension);
}

/// Distinct values never share a four-byte image.
pub proof fn lemma_enc_u32_injective(x1: u32, x2: u32)
    requires
        enc_u32(x1) == enc_u32(x2),
    ensures
        x1 == x2,
{
    lemma_u32_roundtrip(x1);
    lemma_u32_roundtrip(x2);
}

proof fn lemma_enc_opt_u32_injective(o1: Option<u32>, o2: Option<u32>)
    requires
        enc_opt_u32(o1) == enc_opt_u32(o2),
    ensures
        o1 == o2,
{
    match (o1, o2) {
        (Option::Some(x1), Option::Some(x2)) => {
            assert(enc_u32(x1) =~= enc_opt_u32(o1).subrange(1, 5));
            assert(enc_u32(x2) =~= enc_opt_u32(o2).subrange(1, 5));
            lemma_enc_u32_injective(x1, x2);
        },
        (Option::None, Option::Some(x2)) => {
            assert(enc_opt_u32(o1)[0] == 0u8);
            assert(enc_opt_u32(o2)[0] == 1u8);
        },
        (Option::Some(x1), Option::None) => {
            assert(enc_opt_u32(o1)[0] == 1u8);
            assert(enc_opt_u32(o2)[0] == 0u8);
        },
        (Option::None, Option::None) => {},
    }
}

/// Nineteen-byte parameter images are unique to their records.
pub proof fn lemma_enc_params_injective(p1: ProcessingParams, p2: ProcessingParams)
    requires
        enc_params(p1) == enc_params(p2),
    ensures
        p1 == p2,
{
    let e1 = enc_params(p1);
    let e2 = enc_params(p2);
    assert(enc_opt_u32(p1.width) =~= e1.subrange(0, 5));
    assert(enc_opt_u32(p2.width) =~= e2.subrange(0, 5));
    lemma_enc_opt_u32_injective(p1.width, p2.width);
    assert(enc_opt_u32(p1.height) =~= e1.subrange(5, 10));
    assert(enc_opt_u32(p2.height) =~= e2.subrange(5, 10));
    lemma_enc_opt_u32_injective(p1.height, p2.height);
    assert(enc_opt_ext(p1.extension) =~= e1.subrange(10, 12));
    assert(enc_opt_ext(p2.extension) =~= e2.subrange(10, 12));
    assert(p1.extension == p2.extension);
    assert(enc_opt_u32(p1.quality) =~= e1.subrange(12, 17));
    assert(enc_opt_u32(p2.quality) =~= e2.subrange(12, 17));
    lemma_enc_opt_u32_injective(p1.quality, p2.quality);
    assert(enc_opt_policy(p1.ratio_policy) =~= e1.subrange(17, 19));
    assert(enc_opt_policy(p2.ratio_policy) =~= e2.subrange(17, 19));
    assert(p1.ratio_policy == p2.ratio_policy);
}

proof fn lemma_enc_params_seq_len(ps: Seq<ProcessingParams>)
    ensures
        enc_params_seq(ps).len() == 19 * ps.len(),
    decreases ps.len(),
{
    if ps.len() > 0 {
        lemma_enc_params_seq_len(ps.drop_last());
    }
}

proof fn lemma_enc_params_seq_injective(v1: Seq<ProcessingParams>, v2: Seq<ProcessingParams>)
    requires
        v1.len() == v2.len(),
        enc_params_seq(v1) == enc_params_seq(v2),
    ensures
        v1 =~= v2,
    decreases v1.len(),
{
    if v1.len() > 0 {
        lemma_enc_params_seq_len(v1.drop_last());
        lemma_enc_params_seq_len(v2.drop_last());
        let b1 = enc_params_seq(v1);
        let n = b1.len() as int;
        assert(enc_params(v1.last()) =~= b1.subrange(n - 19, n));
        assert(enc_params(v2.last()) =~= enc_params_seq(v2).subrange(n - 19, n));
        lemma_enc_params_injective(v1.last(), v2.last());
        assert(enc_params_seq(v1.drop_last()) =~= b1.subrange(0, n - 19));
        assert(enc_params_seq(v2.drop_last()) =~= enc_params_seq(v2).subrange(0, n - 19));
        lemma_enc_params_seq_injective(v1.drop_last(), v2.drop_last());
        assert(v1 =~= v1.drop_last().push(v1.last()));
        assert(v2 =~= v2.drop_last().push(v2.last()));
    }
}

/// Two variant indexes with one byte image are the same list: together with
/// the decoder's contract, decoding an encoding returns the encoded list.
pub proof fn lemma_enc_params_list_injective(v1: Seq<ProcessingParams>,
    v2: Seq<ProcessingParams>)
    requires
        v1.len() <= u32::MAX,
        v2.len() <= u32::MAX,
        enc_params_list(v1) == enc_params_list(v2),
    ensures
        v1 =~= v2,
{
    let b1 = enc_params_list(v1);
    let b2 = enc_params_list(v2);
    lemma_enc_params_seq_len(v1);
    lemma_enc_params_seq_len(v2);
    assert(enc_u32(v1.len() as u32) =~= b1.subrange(0, 4));
    assert(enc_u32(v2.len() as u32) =~= b2.subrange(0, 4));
    lemma_enc_u32_injective(v1.len() as u32, v2.len() as u32);
    assert(v1.len() == v2.len());
    assert(enc_params_seq(v1) =~= b1.subrange(4, b1.len() as int));
    assert(enc_params_seq(v2) =~= b2.subrange(4, b2.len() as int));
    lemma_enc_params_seq_injective(v1, v2);
}

} // verus!
