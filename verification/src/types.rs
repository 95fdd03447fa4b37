//! The encoded image handed back to clients, and the identifier type.

use vstd::prelude::*;
use crate::image_types::Extensions;

verus! {

/// An image identifier: an opaque printable string, sanitized by the caller
/// before it enters the core.
pub type ImageId = String;

/// Mathematical value of an [`ImageContainer`].
pub ghost struct ImageContainerView {
    pub data: Seq<u8>,
    pub filename: Option<Seq<char>>,
    pub extension: Extensions,
}

/// An encoded derivative image: its bytes, an optional file name for the
/// download header, and the format it was encoded to. Immutable once produced.
#[derive(Debug)]
pub struct ImageContainer {
    pub data: Box<Vec<u8>>,
    pub filename: Option<String>,
    pub extension: Extensions,
}

impl View for ImageContainer {
    type V = ImageContainerView;

    open spec fn view(&self) -> ImageContainerView {
        ImageContainerView {
            data: self.data@,
            filename: match self.filename {
                Option::None => Option::None,
                Option::Some(f) => Option::Some(f@),
            },
            extension: self.extension,
        }
    }
}

impl ImageContainer {
    pub fn new(data: Box<Vec<u8>>, filename: Option<String>, extension: Extensions) -> (r: Self)
        ensures
            r@.data == data@,
            r@.filename == (match filename {
                Option::None => Option::None,
                Option::Some(f) => Option::Some(f@),
            }),
            r@.extension == extension,
    {
        ImageContainer { data, filename, extension }
    }
}

impl Clone for ImageContainer {
    fn clone(&self) -> (r: Self)
        ensures
            r@ == self@,
    {
        let data: Vec<u8> = clone_bytes(&self.data);
        let filename: Option<String> = match &self.filename {
            Option::None => Option::None,
            Option::Some(f) => Option::Some(f.clone()),
        };
        ImageContainer { data: Box::new(data), filename, extension: self.extension }
    }
}

/// Copies a byte vector; the copy carries the same bytes.
pub fn clone_bytes(v: &Vec<u8>) -> (r: Vec<u8>)
    ensures
        r@ == v@,
{
    let mut out: Vec<u8> = Vec::new();
    let mut i: usize = 0;
    while i < v.len()
        invariant
            i <= v.len(),
            out@ == v@.subrange(0, i as int),
        decreases v.len() - i,
    {
        out.push(v[i]);
        i = i + 1;
        proof {
            assert(out@ =~= v@.subrange(0, i as int));
        }
    }
    proof {
        assert(out@ =~= v@);
    }
    out
}

} // verus!

verus! {

/// The decimal digits of a nonnegative number, as characters.
pub open spec fn digit_chars(x: int) -> Seq<char>
    decreases x,
{
    if x < 10 {
        seq![spec_digit_char(if x >= 0 { x } else { 0 })]
    } else {
        digit_chars(x / 10).push(spec_digit_char(x % 10))
    }
}

/// One decimal digit as its character.
pub open spec fn spec_digit_char(d: int) -> char {
    if d == 0 { '0' } else if d == 1 { '1' } else if d == 2 { '2' } else if d == 3 { '3' }
    else if d == 4 { '4' } else if d == 5 { '5' } else if d == 6 { '6' } else if d == 7 { '7' }
    else if d == 8 { '8' } else { '9' }
}

fn digit_str(d: u64) -> (r: &'static str)
    requires
        d < 10,
    ensures
        r@ =~= seq![spec_digit_char(d as int)],
{
    proof {
        reveal_strlit("0");
        reveal_strlit("1");
        reveal_strlit("2");
        reveal_strlit("3");
        reveal_strlit("4");
        reveal_strlit("5");
        reveal_strlit("6");
        reveal_strlit("7");
        reveal_strlit("8");
        reveal_strlit("9");
    }
    if d == 0 { "0" } else if d == 1 { "1" } else if d == 2 { "2" } else if d == 3 { "3" }
    else if d == 4 { "4" } else if d == 5 { "5" } else if d == 6 { "6" } else if d == 7 { "7" }
    else if d == 8 { "8" } else { "9" }
}

/// Prints a number as a decimal string.
pub fn u64_to_string(x: u64) -> (r: String)
    ensures
        r@ == digit_chars(x as int),
    decreases x,
{
    if x < 10 {
        String::from_str(digit_str(x))
    } else {
        let mut s = u64_to_string(x / 10);
        s.append(digit_str(x % 10));
        proof {
            assert(s@ =~= digit_chars(x as int));
        }
        s
    }
}

/// The download-name hints recorded by preloads, one per image identifier.
pub struct FilenameHints {
    pub entries: Vec<(ImageId, String)>,
}

/// No two hint entries name the same identifier.
pub open spec fn hints_unique(s: Seq<(ImageId, String)>) -> bool {
    forall|i: int, j: int| 0 <= i < j < s.len() ==> s[i].0@ != s[j].0@
}

impl FilenameHints {
    /// Internal well-formedness.
    pub open spec fn inv(&self) -> bool {
        hints_unique(self.entries@)
    }

    /// Some entry names `id`.
    pub open spec fn has_hint(&self, id: Seq<char>) -> bool {
        exists|i: int| 0 <= i < self.entries@.len() && self.entries@[i].0@ == id
    }

    /// The index of the entry naming `id` (meaningful when present).
    pub open spec fn hint_idx(&self, id: Seq<char>) -> int {
        choose|i: int| 0 <= i < self.entries@.len() && self.entries@[i].0@ == id
    }

    /// The hint recorded for `id`, if any.
    pub open spec fn hint_of(&self, id: Seq<char>) -> Option<Seq<char>> {
        if self.has_hint(id) {
            Option::Some(self.entries@[self.hint_idx(id)].1@)
        } else {
            Option::None
        }
    }

    /// No hints recorded yet.
    pub fn new() -> (r: Self)
        ensures
            r.inv(),
            forall|id: Seq<char>| r.hint_of(id) is None,
    {
        FilenameHints { entries: Vec::new() }
    }

    fn find_idx(&self, image_id: &ImageId) -> (r: Option<usize>)
        ensures
            r matches Some(i) ==> i < self.entries@.len()
                && self.entries@[i as int].0@ == image_id@,
            r is None ==> !self.has_hint(image_id@),
    {
        let mut i: usize = 0;
        while i < self.entries.len()
            invariant
                i <= self.entries@.len(),
                forall|j: int| 0 <= j < i ==> self.entries@[j].0@ != image_id@,
            decreases self.entries@.len() - i,
        {
            if self.entries[i].0 == *image_id {
                return Some(i);
            }
            i = i + 1;
        }
        None
    }

    /// The hint recorded for `image_id`, copied out.
    pub fn find(&self, image_id: &ImageId) -> (r: Option<String>)
        requires
            self.inv(),
        ensures
            (r is Some) == self.has_hint(image_id@),
            r matches Some(s) ==> self.hint_of(image_id@) == Option::Some(s@),
    {
        let found = self.find_idx(image_id);
        match found {
            Option::Some(i) => {
                proof {
                    lemma_hint_idx_is(*self, image_id@, i as int);
                }
                Option::Some(self.entries[i].1.clone())
            },
            Option::None => Option::None,
        }
    }

    /// Records (or overwrites) the hint for `image_id`.
    pub fn set_hint(&mut self, image_id: ImageId, hint: String)
        requires
            old(self).inv(),
        ensures
            final(self).inv(),
            final(self).hint_of(image_id@) == Option::Some(hint@),
            forall|id2: Seq<char>| id2 != image_id@
                ==> #[trigger] final(self).hint_of(id2) == old(self).hint_of(id2),
    {
        let found = self.find_idx(&image_id);
        match found {
            Option::Some(i) => {
                let ghost pre = *self;
                let _ = self.entries.remove(i);
                self.entries.insert(i, (image_id, hint));
                proof {
                    assert(forall|k: int| 0 <= k < pre.entries@.len() && k != i
                        ==> #[trigger] self.entries@[k] == pre.entries@[k]);
                    lemma_hints_update(pre, *self, i as int, pre.entries@[i as int].0@);
                }
            },
            Option::None => {
                let ghost pre = *self;
                self.entries.push((image_id, hint));
                proof {
                    lemma_hints_push(pre, *self, self.entries@.last().0@);
                }
            },
        }
    }
}

/// With unique identifiers, `hint_idx` returns the index of any witness.
proof fn lemma_hint_idx_is(h: FilenameHints, id: Seq<char>, i: int)
    requires
        hints_unique(h.entries@),
        0 <= i < h.entries@.len(),
        h.entries@[i].0@ == id,
    ensures
        h.has_hint(id),
        h.hint_idx(id) == i,
{
    assert(h.has_hint(id));
    let j = h.hint_idx(id);
    assert(0 <= j < h.entries@.len() && h.entries@[j].0@ == id);
    if i < j {
        assert(false);
    } else if j < i {
        assert(false);
    }
}

proof fn lemma_hints_update(pre: FilenameHints, post: FilenameHints, i: int, id: Seq<char>)
    requires
        pre.inv(),
        0 <= i < pre.entries@.len(),
        pre.entries@[i].0@ == id,
        post.entries@.len() == pre.entries@.len(),
        forall|k: int| 0 <= k < pre.entries@.len() && k != i
            ==> #[trigger] post.entries@[k] == pre.entries@[k],
        post.entries@[i].0@ == id,
    ensures
        post.inv(),
        post.hint_of(id) == Option::Some(post.entries@[i].1@),
        forall|id2: Seq<char>| id2 != id
            ==> #[trigger] post.hint_of(id2) == pre.hint_of(id2),
{
    assert(hints_unique(post.entries@)) by {
        assert forall|a: int, b: int| 0 <= a < b < post.entries@.len()
            implies post.entries@[a].0@ != post.entries@[b].0@ by {
            if a != i {
                assert(post.entries@[a] == pre.entries@[a]);
            }
            if b != i {
                assert(post.entries@[b] == pre.entries@[b]);
            }
        }
    }
    lemma_hint_idx_is(post, id, i);
    assert forall|id2: Seq<char>| id2 != id
        implies #[trigger] post.hint_of(id2) == pre.hint_of(id2) by {
        if pre.has_hint(id2) {
            let j = pre.hint_idx(id2);
            assert(0 <= j < pre.entries@.len() && pre.entries@[j].0@ == id2);
            lemma_hint_idx_is(pre, id2, j);
            assert(j != i);
            assert(post.entries@[j] == pre.entries@[j]);
            lemma_hint_idx_is(post, id2, j);
        }
        if post.has_hint(id2) {
            let j = post.hint_idx(id2);
            assert(0 <= j < post.entries@.len() && post.entries@[j].0@ == id2);
            assert(j != i);
            assert(pre.entries@[j] == post.entries@[j]);
            assert(pre.has_hint(id2));
        }
    }
}

proof fn lemma_hints_push(pre: FilenameHints, post: FilenameHints, id: Seq<char>)
    requires
        pre.inv(),
        !pre.has_hint(id),
        post.entries@.len() == pre.entries@.len() + 1,
        forall|k: int| 0 <= k < pre.entries@.len() ==> #[trigger] post.entries@[k]
            == pre.entries@[k],
        post.entries@.last().0@ == id,
    ensures
        post.inv(),
        post.hint_of(id) == Option::Some(post.entries@.last().1@),
        forall|id2: Seq<char>| id2 != id
            ==> #[trigger] post.hint_of(id2) == pre.hint_of(id2),
{
    let n = pre.entries@.len() as int;
    assert(hints_unique(post.entries@)) by {
        assert forall|a: int, b: int| 0 <= a < b < post.entries@.len()
            implies post.entries@[a].0@ != post.entries@[b].0@ by {
            if b < n {
            } else {
                if post.entries@[a].0@ == id {
                    assert(pre.entries@[a].0@ == id);
                    assert(pre.has_hint(id));
                }
            }
        }
    }
    lemma_hint_idx_is(post, id, n);
    assert forall|id2: Seq<char>| id2 != id
        implies #[trigger] post.hint_of(id2) == pre.hint_of(id2) by {
        if pre.has_hint(id2) {
            let j = pre.hint_idx(id2);
            assert(0 <= j < pre.entries@.len() && pre.entries@[j].0@ == id2);
            lemma_hint_idx_is(pre, id2, j);
            assert(post.entries@[j] == pre.entries@[j]);
            lemma_hint_idx_is(post, id2, j);
        }
        if post.has_hint(id2) {
            let j = post.hint_idx(id2);
            assert(0 <= j < post.entries@.len() && post.entries@[j].0@ == id2);
            assert(j != n);
            assert(pre.entries@[j] == post.entries@[j]);
            assert(pre.has_hint(id2));
        }
    }
}

} // verus!
