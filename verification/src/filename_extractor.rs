//! Extraction of a download file name from a `Content-Disposition` header
//! value: the header is split on semicolons and the first `filename=` or
//! `filename*=` part wins. The caller sanitizes whatever comes out before
//! using it as a path.

use vstd::prelude::*;
use vstd::string::StrSliceExecFns;
use vstd::string::StringExecFns;
use crate::codec::bytes_to_string;

verus! {

/// ASCII whitespace, as the header grammar uses it.
pub open spec fn is_ws_char(c: char) -> bool {
    c == ' ' || c == '\t' || c == '\n' || c == '\r'
}

/// The text with leading whitespace dropped.
pub open spec fn trim_front_chars(s: Seq<char>) -> Seq<char>
    decreases s.len(),
{
    if s.len() > 0 && is_ws_char(s[0]) {
        trim_front_chars(s.drop_first())
    } else {
        s
    }
}

/// The text with trailing whitespace dropped.
pub open spec fn trim_back_chars(s: Seq<char>) -> Seq<char>
    decreases s.len(),
{
    if s.len() > 0 && is_ws_char(s.last()) {
        trim_back_chars(s.drop_last())
    } else {
        s
    }
}

/// The text with surrounding whitespace dropped.
pub open spec fn trim_chars(s: Seq<char>) -> Seq<char> {
    trim_back_chars(trim_front_chars(s))
}

/// The value with one layer of matching double or single quotes removed;
/// anything unquoted stays as it is.
pub open spec fn spec_unquoted(s: Seq<char>) -> Seq<char> {
    if s.len() > 1 && s[0] == '"' && s.last() == '"' {
        s.subrange(1, s.len() - 1)
    } else if s.len() > 1 && s[0] == '\'' && s.last() == '\'' {
        s.subrange(1, s.len() - 1)
    } else {
        s
    }
}

/// What a quoted `filename=` value names: trimmed, one quote layer off.
pub open spec fn spec_quoted_value(s: Seq<char>) -> Seq<char> {
    spec_unquoted(trim_chars(s))
}

/// The trimmed text opens with `filename=`.
pub open spec fn starts_filename_eq(s: Seq<char>) -> bool {
    s.len() >= 9 && s[0] == 'f' && s[1] == 'i' && s[2] == 'l' && s[3] == 'e' && s[4] == 'n'
        && s[5] == 'a' && s[6] == 'm' && s[7] == 'e' && s[8] == '='
}

/// The trimmed text opens with `filename*=`.
pub open spec fn starts_filename_star_eq(s: Seq<char>) -> bool {
    s.len() >= 10 && s[0] == 'f' && s[1] == 'i' && s[2] == 'l' && s[3] == 'e' && s[4] == 'n'
        && s[5] == 'a' && s[6] == 'm' && s[7] == 'e' && s[8] == '*' && s[9] == '='
}

/// The text opens with the RFC 5987 charset marker `UTF-8''`, letter case
/// ignored.
pub open spec fn has_utf8_marker(s: Seq<char>) -> bool {
    s.len() >= 7 && (s[0] == 'U' || s[0] == 'u') && (s[1] == 'T' || s[1] == 't')
        && (s[2] == 'F' || s[2] == 'f') && s[3] == '-' && s[4] == '8' && s[5] == '\''
        && s[6] == '\''
}

/// Names the result of `percent_encoding::percent_decode`: each `%XY`
/// becomes the byte `XY`, a function of the input bytes alone.
pub uninterp spec fn pct_decoded(b: Seq<u8>) -> Seq<u8>;

/// What an RFC 5987 value names: after the charset marker the rest is
/// percent-decoded and read as text, falling back to the raw rest where the
/// decoded bytes are not well-formed text; without the marker it is read as
/// a quoted value.
pub open spec fn spec_rfc5987_value(s: Seq<char>) -> Seq<char> {
    let t = trim_chars(s);
    if has_utf8_marker(t) {
        let dec = pct_decoded(vstd::utf8::encode_utf8(t.skip(7)));
        if vstd::utf8::valid_utf8(dec) {
            vstd::utf8::decode_utf8(dec)
        } else {
            t.skip(7)
        }
    } else {
        spec_unquoted(t)
    }
}

/// What one semicolon-separated part announces: a quoted name after
/// `filename=`, an RFC 5987 name after `filename*=`, nothing otherwise.
pub open spec fn spec_part_value(s: Seq<char>) -> Option<Seq<char>> {
    let t = trim_chars(s);
    if starts_filename_star_eq(t) {
        Option::Some(spec_rfc5987_value(t.skip(10)))
    } else if starts_filename_eq(t) {
        Option::Some(spec_quoted_value(t.skip(9)))
    } else {
        Option::None
    }
}

/// The position of the first semicolon, or the length when there is none.
pub open spec fn first_semi(s: Seq<char>) -> int
    decreases s.len(),
{
    if s.len() == 0 {
        0
    } else if s[0] == ';' {
        0
    } else {
        1 + first_semi(s.drop_first())
    }
}

/// What a whole header value announces: the first semicolon-separated part
/// naming a file wins; none naming one yields nothing.
pub open spec fn spec_parse_cd(s: Seq<char>) -> Option<Seq<char>>
    decreases s.len(),
{
    let k0 = first_semi(s);
    let k = if 0 <= k0 && k0 < s.len() { k0 } else { s.len() as int };
    match spec_part_value(s.take(k)) {
        Option::Some(v) => Option::Some(v),
        Option::None => {
            if k == s.len() {
                Option::None
            } else {
                spec_parse_cd(s.skip(k + 1))
            }
        },
    }
}

/// `first_semi` is the scan it claims to be: everything before it differs
/// from a semicolon, and it points at one unless there is none.
proof fn lemma_first_semi_at(s: Seq<char>, k: int)
    requires
        0 <= k <= s.len(),
        forall|j: int| 0 <= j < k ==> s[j] != ';',
        k < s.len() ==> s[k] == ';',
    ensures
        first_semi(s) == k,
    decreases s.len(),
{
    if s.len() == 0 {
    } else if s[0] == ';' {
        assert(k == 0);
    } else {
        assert(k >= 1);
        lemma_first_semi_at(s.drop_first(), k - 1);
    }
}

/// Relies on `percent_encoding::percent_decode`: decodes percent escapes;
/// bytes without a percent sign pass through unchanged.
#[verifier::external_body]
fn percent_decode_bytes(b: &Vec<u8>) -> (r: Vec<u8>)
    ensures
        r@ == pct_decoded(b@),
        !b@.contains(0x25u8) ==> r@ == b@,
{
    percent_encoding::percent_decode(b.as_slice()).collect()
}

fn is_ws_exec(c: char) -> (r: bool)
    ensures
        r == is_ws_char(c),
{
    c == ' ' || c == '\t' || c == '\n' || c == '\r'
}

fn trim_str<'a>(s: &'a str) -> (r: &'a str)
    ensures
        r@ == trim_chars(s@),
{
    let n = s.unicode_len();
    proof {
        assert(s@.subrange(0, s@.len() as int) =~= s@);
    }
    let mut start: usize = 0;
    while start < n && is_ws_exec(s.get_char(start))
        invariant
            start <= n,
            n == s@.len(),
            trim_front_chars(s@) == trim_front_chars(s@.subrange(start as int, n as int)),
        decreases n - start,
    {
        proof {
            assert(s@.subrange(start as int, n as int).drop_first()
                =~= s@.subrange(start as int + 1, n as int));
        }
        start = start + 1;
    }
    let mut end: usize = n;
    proof {
        assert(trim_front_chars(s@) == s@.subrange(start as int, end as int));
    }
    while end > start && is_ws_exec(s.get_char(end - 1))
        invariant
            start <= end <= n,
            n == s@.len(),
            trim_back_chars(s@.subrange(start as int, n as int))
                == trim_back_chars(s@.subrange(start as int, end as int)),
            trim_front_chars(s@) == s@.subrange(start as int, n as int),
        decreases end,
    {
        proof {
            assert(s@.subrange(start as int, end as int).drop_last()
                =~= s@.subrange(start as int, end as int - 1));
        }
        end = end - 1;
    }
    let r = s.substring_char(start, end);
    proof {
        assert(r@ =~= trim_chars(s@));
    }
    r
}

/// One layer of matching quotes off an already-trimmed value, as an owned
/// string.
fn unquoted_str(t: &str) -> (r: String)
    ensures
        r@ == spec_unquoted(t@),
{
    let n = t.unicode_len();
    let quoted = n > 1 && ((t.get_char(0) == '"' && t.get_char(n - 1) == '"')
        || (t.get_char(0) == '\'' && t.get_char(n - 1) == '\''));
    if quoted {
        let inner = t.substring_char(1, n - 1);
        String::from_str(inner)
    } else {
        proof {
            assert(t@ =~= spec_unquoted(t@));
        }
        String::from_str(t)
    }
}

fn rfc5987_str(value: &str) -> (r: String)
    ensures
        r@ == spec_rfc5987_value(value@),
{
    let t = trim_str(value);
    let n = t.unicode_len();
    let marked = n >= 7 && (t.get_char(0) == 'U' || t.get_char(0) == 'u')
        && (t.get_char(1) == 'T' || t.get_char(1) == 't')
        && (t.get_char(2) == 'F' || t.get_char(2) == 'f') && t.get_char(3) == '-'
        && t.get_char(4) == '8' && t.get_char(5) == '\'' && t.get_char(6) == '\'';
    if marked {
        let rest = t.substring_char(7, n);
        proof {
            assert(rest@ =~= t@.skip(7));
        }
        let encoded = rest.as_bytes_vec();
        let decoded = percent_decode_bytes(&encoded);
        let ghost decv = decoded@;
        match bytes_to_string(decoded) {
            Option::Some(st) => {
                proof {
                    vstd::utf8::encode_utf8_valid_utf8(st@);
                    vstd::utf8::encode_utf8_decode_utf8(st@);
                }
                st
            },
            Option::None => {
                proof {
                    assert(!vstd::utf8::valid_utf8(decv));
                }
                String::from_str(rest)
            },
        }
    } else {
        unquoted_str(t)
    }
}

/// Extracts a file name from a `Content-Disposition` header value.
pub struct FileNameExtractor;

impl FileNameExtractor {
    /// The first file name announced by the header, raw: the caller
    /// sanitizes it before treating it as a path.
    pub fn extract(disposition: &str) -> (r: Option<String>)
        ensures
            (r is Some) == (spec_parse_cd(disposition@) is Some),
            r matches Some(v) ==> spec_parse_cd(disposition@) == Option::Some(v@),
    {
        Self::parse_content_disposition(disposition)
    }

    /// Walks the semicolon-separated parts and returns the first file name
    /// one of them announces.
    pub fn parse_content_disposition(disposition: &str) -> (r: Option<String>)
        ensures
            (r is Some) == (spec_parse_cd(disposition@) is Some),
            r matches Some(v) ==> spec_parse_cd(disposition@) == Option::Some(v@),
        decreases disposition@.len(),
    {
        let n = disposition.unicode_len();
        let mut k: usize = 0;
        while k < n && disposition.get_char(k) != ';'
            invariant
                k <= n,
                n == disposition@.len(),
                forall|j: int| 0 <= j < k ==> disposition@[j] != ';',
            decreases n - k,
        {
            k = k + 1;
        }
        proof {
            lemma_first_semi_at(disposition@, k as int);
        }
        let head = disposition.substring_char(0, k);
        proof {
            assert(head@ =~= disposition@.take(k as int));
        }
        let part = Self::extract_filename_from_part(head);
        if part.is_some() {
            return part;
        }
        if k == n {
            return Option::None;
        }
        let rest = disposition.substring_char(k + 1, n);
        proof {
            assert(rest@ =~= disposition@.skip(k as int + 1));
        }
        Self::parse_content_disposition(rest)
    }

    /// Reads one part: `filename=` announces a quoted name, `filename*=` an
    /// RFC 5987 encoded one, anything else nothing.
    pub fn extract_filename_from_part(part: &str) -> (r: Option<String>)
        ensures
            (r is Some) == (spec_part_value(part@) is Some),
            r matches Some(v) ==> spec_part_value(part@) == Option::Some(v@),
    {
        let t = trim_str(part);
        let n = t.unicode_len();
        let plain = n >= 9 && t.get_char(0) == 'f' && t.get_char(1) == 'i'
            && t.get_char(2) == 'l' && t.get_char(3) == 'e' && t.get_char(4) == 'n'
            && t.get_char(5) == 'a' && t.get_char(6) == 'm' && t.get_char(7) == 'e'
            && t.get_char(8) == '=';
        let starred = n >= 10 && t.get_char(0) == 'f' && t.get_char(1) == 'i'
            && t.get_char(2) == 'l' && t.get_char(3) == 'e' && t.get_char(4) == 'n'
            && t.get_char(5) == 'a' && t.get_char(6) == 'm' && t.get_char(7) == 'e'
            && t.get_char(8) == '*' && t.get_char(9) == '=';
        if starred {
            let rest = t.substring_char(10, n);
            proof {
                assert(rest@ =~= t@.skip(10));
            }
            Option::Some(rfc5987_str(rest))
        } else if plain {
            let rest = t.substring_char(9, n);
            proof {
                assert(rest@ =~= t@.skip(9));
            }
            let trimmed = trim_str(rest);
            Option::Some(unquoted_str(trimmed))
        } else {
            Option::None
        }
    }

    /// Strips one layer of matching double or single quotes off the trimmed
    /// value; anything else is returned trimmed as it is. Always succeeds.
    pub fn extract_quoted_value(value: &str) -> (r: Option<String>)
        ensures
            r matches Some(v) && v@ == spec_quoted_value(value@),
    {
        let t = trim_str(value);
        Option::Some(unquoted_str(t))
    }

    /// Decodes an RFC 5987 value: after a `UTF-8''` marker the rest is
    /// percent-decoded, falling back to the raw rest when the decoded form
    /// is not well-formed text; anything else is read as a quoted value.
    /// Always succeeds.
    pub fn extract_rfc5987_value(value: &str) -> (r: Option<String>)
        ensures
            r matches Some(v) && v@ == spec_rfc5987_value(value@),
    {
        Option::Some(rfc5987_str(value))
    }
}

} // verus!
