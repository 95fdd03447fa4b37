//! Keys of the persistent derivative cache.
//!
//! A derivative is stored under `<id>_<canonical-json(params)>` so that all
//! variants of one identifier can be dropped by removing the prefix
//! `<id>_{`. The lemmas here show that the removal prefix catches exactly
//! the keys of that identifier, for identifiers free of the opening brace.

use vstd::prelude::*;
use vstd::seq_lib::*;
use crate::image_processing::{ProcessingParams, RatioPolicy};
use crate::image_types::Extensions;
use crate::types::ImageId;

verus! {

/// The decimal digits of a nonnegative number, as ASCII bytes.
pub open spec fn digits_of(x: int) -> Seq<u8>
    decreases x,
{
    if x < 10 {
        seq![(0x30 + if x >= 0 { x } else { 0 }) as u8]
    } else {
        digits_of(x / 10).push((0x30 + x % 10) as u8)
    }
}

/// Prints a number as decimal ASCII digits.
pub fn u64_digits(x: u64) -> (r: Vec<u8>)
    ensures
        r@ == digits_of(x as int),
    decreases x,
{
    if x < 10 {
        let mut out: Vec<u8> = Vec::new();
        out.push(0x30 + (x as u8));
        proof {
            assert(out@ =~= digits_of(x as int));
        }
        out
    } else {
        let mut out = u64_digits(x / 10);
        out.push(0x30 + ((x % 10) as u8));
        out
    }
}

/// `"width":`
pub open spec fn lit_width() -> Seq<u8> {
    seq![0x22u8, 0x77u8, 0x69u8, 0x64u8, 0x74u8, 0x68u8, 0x22u8, 0x3au8]
}

/// `,"height":`
pub open spec fn lit_height() -> Seq<u8> {
    seq![0x2cu8, 0x22u8, 0x68u8, 0x65u8, 0x69u8, 0x67u8, 0x68u8, 0x74u8, 0x22u8, 0x3au8]
}

/// `,"extension":`
pub open spec fn lit_extension() -> Seq<u8> {
    seq![0x2cu8, 0x22u8, 0x65u8, 0x78u8, 0x74u8, 0x65u8, 0x6eu8, 0x73u8, 0x69u8, 0x6fu8,
        0x6eu8, 0x22u8, 0x3au8]
}

/// `,"quality":`
pub open spec fn lit_quality() -> Seq<u8> {
    seq![0x2cu8, 0x22u8, 0x71u8, 0x75u8, 0x61u8, 0x6cu8, 0x69u8, 0x74u8, 0x79u8, 0x22u8, 0x3au8]
}

/// `,"ratio_policy":`
pub open spec fn lit_policy() -> Seq<u8> {
    seq![0x2cu8, 0x22u8, 0x72u8, 0x61u8, 0x74u8, 0x69u8, 0x6fu8, 0x5fu8, 0x70u8, 0x6fu8,
        0x6cu8, 0x69u8, 0x63u8, 0x79u8, 0x22u8, 0x3au8]
}

/// `null`
pub open spec fn lit_null() -> Seq<u8> {
    seq![0x6eu8, 0x75u8, 0x6cu8, 0x6cu8]
}

/// The JSON value of an optional number.
pub open spec fn json_opt_num(o: Option<u32>) -> Seq<u8> {
    match o {
        Option::None => lit_null(),
        Option::Some(x) => digits_of(x as int),
    }
}

/// The JSON value of an optional output format, a quoted name.
pub open spec fn json_opt_ext(o: Option<Extensions>) -> Seq<u8> {
    match o {
        Option::None => lit_null(),
        Option::Some(Extensions::Webp) => seq![0x22u8, 0x57u8, 0x65u8, 0x62u8, 0x70u8, 0x22u8],
        Option::Some(Extensions::Avif) => seq![0x22u8, 0x41u8, 0x76u8, 0x69u8, 0x66u8, 0x22u8],
        Option::Some(Extensions::PNG) => seq![0x22u8, 0x50u8, 0x4eu8, 0x47u8, 0x22u8],
    }
}

/// The JSON value of an optional ratio policy, a quoted name.
pub open spec fn json_opt_policy(o: Option<RatioPolicy>) -> Seq<u8> {
    match o {
        Option::None => lit_null(),
        Option::Some(RatioPolicy::Resize) => seq![0x22u8, 0x52u8, 0x65u8, 0x73u8, 0x69u8,
            0x7au8, 0x65u8, 0x22u8],
        Option::Some(RatioPolicy::CropToCenter) => seq![0x22u8, 0x43u8, 0x72u8, 0x6fu8, 0x70u8,
            0x54u8, 0x6fu8, 0x43u8, 0x65u8, 0x6eu8, 0x74u8, 0x65u8, 0x72u8, 0x22u8],
    }
}

/// Everything of the canonical JSON object after its opening brace.
pub open spec fn json_tail(p: ProcessingParams) -> Seq<u8> {
    lit_width() + json_opt_num(p.width) + lit_height() + json_opt_num(p.height)
        + lit_extension() + json_opt_ext(p.extension) + lit_quality() + json_opt_num(p.quality)
        + lit_policy() + json_opt_policy(p.ratio_policy) + seq![0x7du8]
}

/// The canonical JSON of a parameter record. Two equal records give equal
/// bytes, and the object always begins with an opening brace.
pub open spec fn json_of_params(p: ProcessingParams) -> Seq<u8> {
    seq![0x7bu8] + json_tail(p)
}

/// The key a derivative is stored under.
pub open spec fn derived_key(id: Seq<u8>, p: ProcessingParams) -> Seq<u8> {
    id + seq![0x5fu8] + json_of_params(p)
}

/// The prefix whose removal evicts every variant of `id`.
pub open spec fn removal_prefix(id: Seq<u8>) -> Seq<u8> {
    id + seq![0x5fu8, 0x7bu8]
}

/// No opening brace anywhere in the bytes.
pub open spec fn no_brace(s: Seq<u8>) -> bool {
    forall|i: int| 0 <= i < s.len() ==> s[i] != 0x7bu8
}

proof fn lemma_no_brace_concat(a: Seq<u8>, b: Seq<u8>)
    requires
        no_brace(a),
        no_brace(b),
    ensures
        no_brace(a + b),
{
    assert forall|i: int| 0 <= i < (a + b).len() implies (a + b)[i] != 0x7bu8 by {
        if i < a.len() {
            assert((a + b)[i] == a[i]);
        } else {
            assert((a + b)[i] == b[i - a.len()]);
        }
    }
}

proof fn lemma_digits_no_brace(x: int)
    ensures
        no_brace(digits_of(x)),
        digits_of(x).len() >= 1,
    decreases x,
{
    if x < 10 {
    } else {
        lemma_digits_no_brace(x / 10);
        assert forall|i: int| 0 <= i < digits_of(x).len() implies digits_of(x)[i] != 0x7bu8 by {
            if i < digits_of(x / 10).len() {
                assert(digits_of(x)[i] == digits_of(x / 10)[i]);
            } else {
                assert(digits_of(x)[i] == (0x30 + x % 10) as u8);
            }
        }
    }
}

/// The canonical JSON object of a parameter record opens with a brace and
/// holds no further brace anywhere after it.
pub proof fn lemma_json_brace_only_at_start(p: ProcessingParams)
    ensures
        json_of_params(p).len() >= 1,
        json_of_params(p)[0] == 0x7bu8,
        forall|i: int| 1 <= i < json_of_params(p).len() ==> json_of_params(p)[i] != 0x7bu8,
{
    assert(no_brace(json_opt_num(p.width))) by {
        if p.width is Some {
            lemma_digits_no_brace(p.width->0 as int);
        }
    }
    assert(no_brace(json_opt_num(p.height))) by {
        if p.height is Some {
            lemma_digits_no_brace(p.height->0 as int);
        }
    }
    assert(no_brace(json_opt_num(p.quality))) by {
        if p.quality is Some {
            lemma_digits_no_brace(p.quality->0 as int);
        }
    }
    lemma_no_brace_concat(lit_width(), json_opt_num(p.width));
    lemma_no_brace_concat(lit_width() + json_opt_num(p.width), lit_height());
    lemma_no_brace_concat(lit_width() + json_opt_num(p.width) + lit_height(),
        json_opt_num(p.height));
    lemma_no_brace_concat(lit_width() + json_opt_num(p.width) + lit_height()
        + json_opt_num(p.height), lit_extension());
    lemma_no_brace_concat(lit_width() + json_opt_num(p.width) + lit_height()
        + json_opt_num(p.height) + lit_extension(), json_opt_ext(p.extension));
    lemma_no_brace_concat(lit_width() + json_opt_num(p.width) + lit_height()
        + json_opt_num(p.height) + lit_extension() + json_opt_ext(p.extension), lit_quality());
    lemma_no_brace_concat(lit_width() + json_opt_num(p.width) + lit_height()
        + json_opt_num(p.height) + lit_extension() + json_opt_ext(p.extension) + lit_quality(),
        json_opt_num(p.quality));
    lemma_no_brace_concat(lit_width() + json_opt_num(p.width) + lit_height()
        + json_opt_num(p.height) + lit_extension() + json_opt_ext(p.extension) + lit_quality()
        + json_opt_num(p.quality), lit_policy());
    lemma_no_brace_concat(lit_width() + json_opt_num(p.width) + lit_height()
        + json_opt_num(p.height) + lit_extension() + json_opt_ext(p.extension) + lit_quality()
        + json_opt_num(p.quality) + lit_policy(), json_opt_policy(p.ratio_policy));
    lemma_no_brace_concat(lit_width() + json_opt_num(p.width) + lit_height()
        + json_opt_num(p.height) + lit_extension() + json_opt_ext(p.extension) + lit_quality()
        + json_opt_num(p.quality) + lit_policy() + json_opt_policy(p.ratio_policy),
        seq![0x7du8]);
    assert(no_brace(json_tail(p)));
    assert forall|i: int| 1 <= i < json_of_params(p).len()
        implies json_of_params(p)[i] != 0x7bu8 by {
        assert(json_of_params(p)[i] == json_tail(p)[i - 1]);
    }
}

/// Every variant key of `id` starts with `id`'s removal prefix.
pub proof fn lemma_removal_prefix_covers(id: Seq<u8>, p: ProcessingParams)
    ensures
        removal_prefix(id).is_prefix_of(derived_key(id, p)),
{
    lemma_json_brace_only_at_start(p);
    let key = derived_key(id, p);
    let pre = removal_prefix(id);
    assert forall|i: int| 0 <= i < pre.len() implies pre[i] == key[i] by {
        if i < id.len() {
            assert(pre[i] == id[i]);
            assert(key[i] == id[i]);
        } else if i == id.len() {
            assert(pre[i] == 0x5fu8);
            assert(key[i] == (id + seq![0x5fu8])[i]);
        } else {
            assert(pre[i] == 0x7bu8);
            assert(key[i] == json_of_params(p)[0]);
        }
    }
    assert(pre =~= key.subrange(0, pre.len() as int));
}

/// The removal prefix of `id` never matches a key of a different identifier,
/// as long as identifiers hold no opening brace. (An identifier such as one
/// extending `id` by `_{` would collide; path-sanitized identifiers never
/// contain a brace.)
pub proof fn lemma_removal_prefix_exact(id: Seq<u8>, id2: Seq<u8>, p: ProcessingParams)
    requires
        id2 != id,
        !id2.contains(0x7bu8),
    ensures
        !removal_prefix(id).is_prefix_of(derived_key(id2, p)),
{
    lemma_json_brace_only_at_start(p);
    let key = derived_key(id2, p);
    let pre = removal_prefix(id);
    let n = id.len() as int;
    let n2 = id2.len() as int;
    if pre.is_prefix_of(key) {
        assert(pre.len() <= key.len());
        assert(forall|i: int| 0 <= i < pre.len() ==> pre[i] == #[trigger] key[i]) by {
            assert(pre =~= key.subrange(0, pre.len() as int));
            assert forall|i: int| 0 <= i < pre.len() implies pre[i] == #[trigger] key[i] by {
                assert(pre[i] == key.subrange(0, pre.len() as int)[i]);
            }
        }
        if n2 == n {
            assert(id2 =~= id) by {
                assert forall|i: int| 0 <= i < n implies id2[i] == id[i] by {
                    assert(key[i] == id2[i]);
                    assert(pre[i] == id[i]);
                }
            }
        } else if n2 > n {
            // the brace of the prefix would sit inside the other identifier
            // or on its separator
            assert(pre[n + 1] == 0x7bu8);
            if n + 1 < n2 {
                assert(key[n + 1] == id2[n + 1]);
                assert(id2.contains(0x7bu8)) by {
                    assert(id2[n + 1] == 0x7bu8);
                }
            } else {
                assert(n + 1 == n2);
                assert(key[n + 1] == (id2 + seq![0x5fu8])[n2]);
                assert(key[n + 1] == 0x5fu8);
            }
        } else {
            // the brace of the prefix would sit inside the other key's JSON,
            // past its opening brace
            assert(pre[n + 1] == 0x7bu8);
            assert(key[n + 1] == json_of_params(p)[n + 1 - (n2 + 1)]);
            assert(n + 1 - (n2 + 1) >= 1);
        }
    }
}

/// Distinct identifiers have distinct UTF-8 images, so the byte-level
/// prefix lemmas carry over to identifiers held as strings.
pub proof fn lemma_utf8_ids_distinct(id1: Seq<char>, id2: Seq<char>)
    requires
        id1 != id2,
    ensures
        vstd::utf8::encode_utf8(id1) != vstd::utf8::encode_utf8(id2),
{
    if vstd::utf8::encode_utf8(id1) == vstd::utf8::encode_utf8(id2) {
        vstd::utf8::encode_utf8_decode_utf8(id1);
        vstd::utf8::encode_utf8_decode_utf8(id2);
    }
}

/// The removal prefix of one identifier never catches a key of a different
/// identifier, stated over string identifiers: the byte-level caveat is that
/// the other identifier must not contain an opening brace.
pub proof fn lemma_removal_prefix_distinct_ids(id1: Seq<char>, id2: Seq<char>,
    p: ProcessingParams)
    requires
        id1 != id2,
        !vstd::utf8::encode_utf8(id2).contains(0x7bu8),
    ensures
        !removal_prefix(vstd::utf8::encode_utf8(id1)).is_prefix_of(
            derived_key(vstd::utf8::encode_utf8(id2), p)),
{
    lemma_utf8_ids_distinct(id1, id2);
    lemma_removal_prefix_exact(vstd::utf8::encode_utf8(id1), vstd::utf8::encode_utf8(id2), p);
}

fn append_bytes(out: &mut Vec<u8>, bytes: &Vec<u8>)
    ensures
        final(out)@ =~= old(out)@ + bytes@,
{
    let mut i: usize = 0;
    while i < bytes.len()
        invariant
            i <= bytes@.len(),
            out@ =~= old(out)@ + bytes@.take(i as int),
        decreases bytes@.len() - i,
    {
        out.push(bytes[i]);
        i = i + 1;
        proof {
            assert(out@ =~= old(out)@ + bytes@.take(i as int));
        }
    }
    proof {
        assert(bytes@.take(bytes@.len() as int) =~= bytes@);
    }
}

fn append_opt_num(out: &mut Vec<u8>, o: &Option<u32>)
    ensures
        final(out)@ =~= old(out)@ + json_opt_num(*o),
{
    match o {
        Option::None => {
            let nul: Vec<u8> = vec![0x6eu8, 0x75u8, 0x6cu8, 0x6cu8];
            proof {
                assert(nul@ =~= lit_null());
            }
            append_bytes(out, &nul);
        },
        Option::Some(x) => {
            let d = u64_digits(*x as u64);
            append_bytes(out, &d);
        },
    }
}

/// Builds the canonical JSON bytes of a parameter record.
#[verifier::rlimit(100)]
pub fn json_params_bytes(p: &ProcessingParams) -> (r: Vec<u8>)
    ensures
        r@ == json_of_params(*p),
{
    let mut out: Vec<u8> = vec![0x7bu8];
    let w: Vec<u8> = vec![0x22u8, 0x77u8, 0x69u8, 0x64u8, 0x74u8, 0x68u8, 0x22u8, 0x3au8];
    proof {
        assert(w@ =~= lit_width());
    }
    append_bytes(&mut out, &w);
    append_opt_num(&mut out, &p.width);
    proof {
        assert(out@ =~= seq![0x7bu8] + (lit_width() + json_opt_num(p.width)));
    }
    let h: Vec<u8> = vec![0x2cu8, 0x22u8, 0x68u8, 0x65u8, 0x69u8, 0x67u8, 0x68u8, 0x74u8,
        0x22u8, 0x3au8];
    proof {
        assert(h@ =~= lit_height());
    }
    append_bytes(&mut out, &h);
    append_opt_num(&mut out, &p.height);
    proof {
        assert(out@ =~= seq![0x7bu8] + (lit_width() + json_opt_num(p.width) + lit_height()
            + json_opt_num(p.height)));
    }
    let e: Vec<u8> = vec![0x2cu8, 0x22u8, 0x65u8, 0x78u8, 0x74u8, 0x65u8, 0x6eu8, 0x73u8,
        0x69u8, 0x6fu8, 0x6eu8, 0x22u8, 0x3au8];
    proof {
        assert(e@ =~= lit_extension());
    }
    append_bytes(&mut out, &e);
    let ev: Vec<u8> = match &p.extension {
        Option::None => vec![0x6eu8, 0x75u8, 0x6cu8, 0x6cu8],
        Option::Some(Extensions::Webp) => vec![0x22u8, 0x57u8, 0x65u8, 0x62u8, 0x70u8, 0x22u8],
        Option::Some(Extensions::Avif) => vec![0x22u8, 0x41u8, 0x76u8, 0x69u8, 0x66u8, 0x22u8],
        Option::Some(Extensions::PNG) => vec![0x22u8, 0x50u8, 0x4eu8, 0x47u8, 0x22u8],
    };
    proof {
        assert(ev@ =~= json_opt_ext(p.extension));
    }
    append_bytes(&mut out, &ev);
    proof {
        assert(out@ =~= seq![0x7bu8] + (lit_width() + json_opt_num(p.width) + lit_height()
            + json_opt_num(p.height) + lit_extension() + json_opt_ext(p.extension)));
    }
    let q: Vec<u8> = vec![0x2cu8, 0x22u8, 0x71u8, 0x75u8, 0x61u8, 0x6cu8, 0x69u8, 0x74u8,
        0x79u8, 0x22u8, 0x3au8];
    proof {
        assert(q@ =~= lit_quality());
    }
    append_bytes(&mut out, &q);
    append_opt_num(&mut out, &p.quality);
    proof {
        assert(out@ =~= seq![0x7bu8] + (lit_width() + json_opt_num(p.width) + lit_height()
            + json_opt_num(p.height) + lit_extension() + json_opt_ext(p.extension)
            + lit_quality() + json_opt_num(p.quality)));
    }
    let rp: Vec<u8> = vec![0x2cu8, 0x22u8, 0x72u8, 0x61u8, 0x74u8, 0x69u8, 0x6fu8, 0x5fu8,
        0x70u8, 0x6fu8, 0x6cu8, 0x69u8, 0x63u8, 0x79u8, 0x22u8, 0x3au8];
    proof {
        assert(rp@ =~= lit_policy());
    }
    append_bytes(&mut out, &rp);
    let pv: Vec<u8> = match &p.ratio_policy {
        Option::None => vec![0x6eu8, 0x75u8, 0x6cu8, 0x6cu8],
        Option::Some(RatioPolicy::Resize) => vec![0x22u8, 0x52u8, 0x65u8, 0x73u8, 0x69u8,
            0x7au8, 0x65u8, 0x22u8],
        Option::Some(RatioPolicy::CropToCenter) => vec![0x22u8, 0x43u8, 0x72u8, 0x6fu8, 0x70u8,
            0x54u8, 0x6fu8, 0x43u8, 0x65u8, 0x6eu8, 0x74u8, 0x65u8, 0x72u8, 0x22u8],
    };
    proof {
        assert(pv@ =~= json_opt_policy(p.ratio_policy));
    }
    append_bytes(&mut out, &pv);
    proof {
        assert(out@ =~= seq![0x7bu8] + (lit_width() + json_opt_num(p.width) + lit_height()
            + json_opt_num(p.height) + lit_extension() + json_opt_ext(p.extension)
            + lit_quality() + json_opt_num(p.quality) + lit_policy()
            + json_opt_policy(p.ratio_policy)));
    }
    out.push(0x7d);
    proof {
        assert(out@ =~= json_of_params(*p));
    }
    out
}

/// Builds the persistent-cache key of one derivative.
pub fn derived_cache_key(image_id: &ImageId, p: &ProcessingParams) -> (r: Vec<u8>)
    ensures
        r@ == derived_key(vstd::utf8::encode_utf8(image_id@), *p),
{
    let mut out = image_id.as_str().as_bytes_vec();
    out.push(0x5f);
    let json = json_params_bytes(p);
    append_bytes(&mut out, &json);
    proof {
        assert(out@ =~= derived_key(vstd::utf8::encode_utf8(image_id@), *p));
    }
    out
}

/// Builds the prefix under which all of an identifier's derivatives live.
pub fn removal_prefix_key(image_id: &ImageId) -> (r: Vec<u8>)
    ensures
        r@ == removal_prefix(vstd::utf8::encode_utf8(image_id@)),
{
    let mut out = image_id.as_str().as_bytes_vec();
    out.push(0x5f);
    out.push(0x7b);
    proof {
        assert(out@ =~= removal_prefix(vstd::utf8::encode_utf8(image_id@)));
    }
    out
}

} // verus!
