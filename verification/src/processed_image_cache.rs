//! Cache of processed derivative images, keyed by image identifier and
//! processing parameters, with a per-identifier variant index and an
//! admission policy bounding how many variants one identifier may hold.

use vstd::prelude::*;
use crate::image_processing::{param_lt, lemma_param_order_trichotomy, lemma_param_order_transitive, ProcessingParams};
use crate::types::{ImageContainer, ImageContainerView, ImageId};

verus! {

/// What a `set` does once an image already holds the maximum number of
/// variants: refuse the new one, or evict the greatest to make room.
#[derive(Debug, PartialEq, Eq, Structural, Clone, Copy)]
pub enum ImageOptionsOverflowPolicy {
    Restrict,
    Rewrite,
}

/// Error returned by `set` when the variant budget is exhausted under the
/// `Restrict` policy.
#[derive(Debug)]
pub struct ProcessingError {
    pub error: &'static str,
}

/// All variants cached for one image identifier. The parameter list is kept
/// strictly sorted in the canonical order and aligned with the image list.
pub struct IdEntry {
    pub id: ImageId,
    pub params: Vec<ProcessingParams>,
    pub images: Vec<ImageContainer>,
}

/// Parameter lists are strictly ascending in the canonical order.
pub open spec fn sorted_strict(ps: Seq<ProcessingParams>) -> bool {
    forall|i: int, j: int| 0 <= i < j < ps.len() ==> param_lt(ps[i], ps[j])
}

/// No two entries describe the same identifier.
pub open spec fn ids_unique(s: Seq<IdEntry>) -> bool {
    forall|i: int, j: int| 0 <= i < j < s.len() ==> s[i].id@ != s[j].id@
}

/// Some entry describes `id`.
pub open spec fn has_id(s: Seq<IdEntry>, id: Seq<char>) -> bool {
    exists|i: int| 0 <= i < s.len() && s[i].id@ == id
}

/// The index of the entry describing `id` (meaningful when `has_id`).
pub open spec fn idx_of(s: Seq<IdEntry>, id: Seq<char>) -> int {
    choose|i: int| 0 <= i < s.len() && s[i].id@ == id
}

/// The position of `p` in a parameter list (meaningful when present).
pub open spec fn pos_of(ps: Seq<ProcessingParams>, p: ProcessingParams) -> int {
    choose|k: int| 0 <= k < ps.len() && ps[k] == p
}

/// In-memory cache of derivative images with per-identifier admission
/// control. The variant index and the payloads are kept in one aligned
/// structure, so the index always describes exactly the stored payloads.
/// The cache is bounded twice over: each identifier holds at most the
/// per-image budget, and at most `capacity` identifiers are held, the
/// oldest-admitted one leaving when a fresh identifier arrives at capacity.
pub struct MemoryProcessedImageCache {
    pub entries: Vec<IdEntry>,
    pub capacity: usize,
    pub max_options_per_image: usize,
    pub overflow_policy: ImageOptionsOverflowPolicy,
}

impl MemoryProcessedImageCache {
    /// Structural well-formedness: unique identifiers, each parameter list
    /// sorted, aligned with its payloads, and within the variant budget.
    pub open spec fn inv(&self) -> bool {
        &&& self.max_options_per_image >= 1
        &&& self.capacity >= 1
        &&& self.entries@.len() <= self.capacity
        &&& ids_unique(self.entries@)
        &&& forall|i: int| 0 <= i < self.entries@.len() ==> {
            &&& sorted_strict(#[trigger] self.entries@[i].params@)
            &&& self.entries@[i].params@.len() == self.entries@[i].images@.len()
            &&& 1 <= self.entries@[i].params@.len() <= self.max_options_per_image
        }
    }

    /// The variant index holds `p` for `id`.
    pub open spec fn has_variant(&self, id: Seq<char>, p: ProcessingParams) -> bool {
        exists|i: int| 0 <= i < self.entries@.len() && self.entries@[i].id@ == id
            && self.entries@[i].params@.contains(p)
    }

    /// The payload stored under `(id, p)`.
    pub open spec fn variant_at(&self, id: Seq<char>, p: ProcessingParams) -> ImageContainerView {
        let i = idx_of(self.entries@, id);
        self.entries@[i].images@[pos_of(self.entries@[i].params@, p)]@
    }

    /// How many variants `id` currently holds.
    pub open spec fn variant_count(&self, id: Seq<char>) -> nat {
        if has_id(self.entries@, id) {
            self.entries@[idx_of(self.entries@, id)].params@.len()
        } else {
            0
        }
    }

    /// The greatest parameter record cached for `id` in the canonical order;
    /// the one the `Rewrite` policy evicts.
    pub open spec fn greatest_variant(&self, id: Seq<char>) -> ProcessingParams {
        self.entries@[idx_of(self.entries@, id)].params@.last()
    }

    /// Nothing about identifiers other than `id` changes between `pre` and
    /// `post`.
    pub open spec fn other_ids_unchanged(pre: Self, post: Self, id: Seq<char>) -> bool {
        forall|id2: Seq<char>, q: ProcessingParams| id2 != id ==> {
            &&& #[trigger] post.has_variant(id2, q) == pre.has_variant(id2, q)
            &&& (pre.has_variant(id2, q) ==> post.variant_at(id2, q) == pre.variant_at(id2, q))
            &&& post.variant_count(id2) == pre.variant_count(id2)
        }
    }

    /// After a `set` below the budget: the variant is present with the given
    /// payload, every other variant of the identifier is untouched, and the
    /// count grew by one.
    pub open spec fn set_added_post(pre: Self, post: Self, id: Seq<char>, p: ProcessingParams,
        img: ImageContainerView) -> bool {
        &&& post.has_variant(id, p)
        &&& post.variant_at(id, p) == img
        &&& forall|q: ProcessingParams| q != p ==> {
            &&& #[trigger] post.has_variant(id, q) == pre.has_variant(id, q)
            &&& (pre.has_variant(id, q) ==> post.variant_at(id, q) == pre.variant_at(id, q))
        }
        &&& post.variant_count(id) == pre.variant_count(id) + 1
    }

    /// After a `set` at the budget under `Rewrite`: exactly the greatest
    /// cached parameter record left, the new variant entered, every other
    /// variant is untouched, and the count is unchanged.
    pub open spec fn set_rewrite_post(pre: Self, post: Self, id: Seq<char>, p: ProcessingParams,
        img: ImageContainerView) -> bool {
        let g = pre.greatest_variant(id);
        &&& pre.has_variant(id, g)
        &&& (forall|q: ProcessingParams| pre.has_variant(id, q)
            ==> #[trigger] param_lt(q, g) || q == g)
        &&& post.has_variant(id, p)
        &&& post.variant_at(id, p) == img
        &&& !post.has_variant(id, g)
        &&& (forall|q: ProcessingParams| q != p && q != g ==> {
            &&& #[trigger] post.has_variant(id, q) == pre.has_variant(id, q)
            &&& (pre.has_variant(id, q) ==> post.variant_at(id, q) == pre.variant_at(id, q))
        })
        &&& post.variant_count(id) == pre.variant_count(id)
    }

    /// A fresh identifier arrived at identifier capacity: the oldest
    /// identifier `ev` lost every variant, and every identifier other than
    /// `ev` and the fresh one is untouched.
    pub open spec fn oldest_evicted_for(pre: Self, post: Self, id: Seq<char>, ev: Seq<char>)
        -> bool {
        &&& (forall|q: ProcessingParams| !post.has_variant(ev, q))
        &&& post.variant_count(ev) == 0
        &&& forall|id2: Seq<char>, q: ProcessingParams| id2 != id && id2 != ev ==> {
            &&& #[trigger] post.has_variant(id2, q) == pre.has_variant(id2, q)
            &&& (pre.has_variant(id2, q) ==> post.variant_at(id2, q) == pre.variant_at(id2, q))
            &&& post.variant_count(id2) == pre.variant_count(id2)
        }
    }

    /// Identifiers other than the set one are untouched where no eviction
    /// was forced, and only the oldest identifier leaves where one was.
    pub open spec fn others_preserved(pre: Self, post: Self, id: Seq<char>) -> bool {
        &&& (has_id(pre.entries@, id) || pre.entries@.len() < pre.capacity
            ==> Self::other_ids_unchanged(pre, post, id))
        &&& (!has_id(pre.entries@, id) && pre.entries@.len() == pre.capacity
            ==> Self::oldest_evicted_for(pre, post, id, pre.entries@[0].id@))
    }

    /// Nothing at all changes between `pre` and `post`.
    pub open spec fn contents_unchanged(pre: Self, post: Self) -> bool {
        forall|id2: Seq<char>, q: ProcessingParams| {
            &&& #[trigger] post.has_variant(id2, q) == pre.has_variant(id2, q)
            &&& (pre.has_variant(id2, q) ==> post.variant_at(id2, q) == pre.variant_at(id2, q))
            &&& post.variant_count(id2) == pre.variant_count(id2)
        }
    }

    /// The whole contract of [`Self::set`] in one predicate: the admission
    /// algorithm's four cases, the variant budget, and that other
    /// identifiers are untouched.
    pub open spec fn set_post(pre: Self, post: Self, id: Seq<char>, p: ProcessingParams,
        img: ImageContainerView, ok: bool) -> bool {
        &&& post.inv()
        &&& post.capacity == pre.capacity
        &&& post.max_options_per_image == pre.max_options_per_image
        &&& post.overflow_policy == pre.overflow_policy
        &&& post.variant_count(id) <= pre.max_options_per_image
        &&& Self::others_preserved(pre, post, id)
        &&& (pre.has_variant(id, p) ==> ok && Self::contents_unchanged(pre, post))
        &&& (!pre.has_variant(id, p) && pre.variant_count(id) < pre.max_options_per_image
            ==> ok && Self::set_added_post(pre, post, id, p, img))
        &&& (!pre.has_variant(id, p) && pre.variant_count(id) >= pre.max_options_per_image
            && pre.overflow_policy == ImageOptionsOverflowPolicy::Restrict
            ==> !ok && Self::contents_unchanged(pre, post))
        &&& (!pre.has_variant(id, p) && pre.variant_count(id) >= pre.max_options_per_image
            && pre.overflow_policy == ImageOptionsOverflowPolicy::Rewrite
            ==> ok && Self::set_rewrite_post(pre, post, id, p, img))
    }

    /// The whole contract of [`Self::remove`] in one predicate: nothing is
    /// left for the identifier and nothing else moved.
    pub open spec fn remove_post(pre: Self, post: Self, id: Seq<char>) -> bool {
        &&& post.inv()
        &&& post.capacity == pre.capacity
        &&& post.max_options_per_image == pre.max_options_per_image
        &&& post.overflow_policy == pre.overflow_policy
        &&& (forall|q: ProcessingParams| !post.has_variant(id, q))
        &&& post.variant_count(id) == 0
        &&& Self::other_ids_unchanged(pre, post, id)
    }

    /// Creates an empty cache admitting up to `capacity` identifiers.
    pub fn new(capacity: usize, max_options_per_image: usize,
        overflow_policy: ImageOptionsOverflowPolicy) -> (r: Self)
        requires
            capacity >= 1,
            max_options_per_image >= 1,
        ensures
            r.inv(),
            r.capacity == capacity,
            r.max_options_per_image == max_options_per_image,
            r.overflow_policy == overflow_policy,
            forall|id: Seq<char>, q: ProcessingParams| !r.has_variant(id, q),
            forall|id: Seq<char>| r.variant_count(id) == 0,
    {
        MemoryProcessedImageCache {
            entries: Vec::new(),
            capacity,
            max_options_per_image,
            overflow_policy,
        }
    }

    fn find_entry(&self, image_id: &ImageId) -> (r: Option<usize>)
        ensures
            r matches Some(i) ==> i < self.entries@.len() && self.entries@[i as int].id@ == image_id@,
            r is None ==> !has_id(self.entries@, image_id@),
    {
        let mut i: usize = 0;
        while i < self.entries.len()
            invariant
                i <= self.entries@.len(),
                forall|j: int| 0 <= j < i ==> self.entries@[j].id@ != image_id@,
            decreases self.entries@.len() - i,
        {
            if self.entries[i].id == *image_id {
                return Some(i);
            }
            i = i + 1;
        }
        None
    }

    /// Looks a variant up; returns a copy of the stored payload.
    pub fn get(&self, image_id: &ImageId, params: &ProcessingParams) -> (r: Option<ImageContainer>)
        requires
            self.inv(),
        ensures
            r is Some <==> self.has_variant(image_id@, *params),
            r matches Some(c) ==> c@ == self.variant_at(image_id@, *params),
    {
        let found = self.find_entry(image_id);
        match found {
            Option::None => {
                proof {
                    if self.has_variant(image_id@, *params) {
                        let i = choose|i: int| 0 <= i < self.entries@.len()
                            && self.entries@[i].id@ == image_id@
                            && self.entries@[i].params@.contains(*params);
                        assert(has_id(self.entries@, image_id@));
                    }
                }
                Option::None
            },
            Option::Some(i) => {
                let e = &self.entries[i];
                let (pos, present) = find_insert_pos(&e.params, params);
                if present {
                    proof {
                        lemma_idx_is(self.entries@, image_id@, i as int);
                        lemma_pos_is(self.entries@[i as int].params@, *params, pos as int);
                        assert(self.has_variant(image_id@, *params)) by {
                            assert(self.entries@[i as int].params@.contains(*params));
                        }
                    }
                    Option::Some(e.images[pos].clone())
                } else {
                    proof {
                        lemma_no_variant(*self, image_id@, *params, i as int);
                    }
                    Option::None
                }
            },
        }
    }

    /// Number of variants currently cached for `image_id`.
    pub fn records_count(&self, image_id: &ImageId) -> (r: usize)
        requires
            self.inv(),
        ensures
            r == self.variant_count(image_id@),
    {
        let found = self.find_entry(image_id);
        match found {
            Option::None => 0,
            Option::Some(i) => {
                proof {
                    lemma_idx_is(self.entries@, image_id@, i as int);
                }
                self.entries[i].params.len()
            },
        }
    }

    /// Whether the exact `(image_id, params)` variant is cached.
    pub fn have_record(&self, image_id: &ImageId, params: &ProcessingParams) -> (r: bool)
        requires
            self.inv(),
        ensures
            r == self.has_variant(image_id@, *params),
    {
        let r = self.get(image_id, params);
        r.is_some()
    }

    /// The admission policy in force.
    pub fn max_options_per_image_overflow_policy(&self) -> (r: ImageOptionsOverflowPolicy)
        ensures
            r == self.overflow_policy,
    {
        self.overflow_policy
    }

    /// The per-identifier variant budget.
    pub fn max_options_per_image(&self) -> (r: usize)
        ensures
            r == self.max_options_per_image,
    {
        self.max_options_per_image
    }

    /// Inserts a derivative under the admission policy, holding the variant
    /// budget for `image_id`:
    /// - an already-cached key is left as it is;
    /// - below the budget the variant is added;
    /// - at the budget, `Restrict` refuses and changes nothing, while
    ///   `Rewrite` evicts exactly the greatest cached parameter record and
    ///   then adds the new variant.
    #[verifier::rlimit(50)]
    pub fn set(&mut self, image_id: ImageId, params: ProcessingParams, image: ImageContainer)
        -> (r: Result<(), ProcessingError>)
        requires
            old(self).inv(),
        ensures
            final(self).inv(),
            final(self).capacity == old(self).capacity,
            final(self).max_options_per_image == old(self).max_options_per_image,
            final(self).overflow_policy == old(self).overflow_policy,
            final(self).variant_count(image_id@) <= old(self).max_options_per_image,
            Self::others_preserved(*old(self), *final(self), image_id@),
            // an exact hit changes nothing
            old(self).has_variant(image_id@, params) ==> r is Ok
                && Self::contents_unchanged(*old(self), *final(self)),
            // room left: the variant is added, everything else kept
            !old(self).has_variant(image_id@, params)
                && old(self).variant_count(image_id@) < old(self).max_options_per_image
                ==> r is Ok
                    && Self::set_added_post(*old(self), *final(self), image_id@, params, image@),
            // budget reached, Restrict: refused, nothing changes
            !old(self).has_variant(image_id@, params)
                && old(self).variant_count(image_id@) >= old(self).max_options_per_image
                && old(self).overflow_policy == ImageOptionsOverflowPolicy::Restrict ==> {
                &&& r is Err
                &&& Self::contents_unchanged(*old(self), *final(self))
            },
            // budget reached, Rewrite: exactly the greatest record leaves
            !old(self).has_variant(image_id@, params)
                && old(self).variant_count(image_id@) >= old(self).max_options_per_image
                && old(self).overflow_policy == ImageOptionsOverflowPolicy::Rewrite
                ==> r is Ok
                    && Self::set_rewrite_post(*old(self), *final(self), image_id@, params, image@),
            Self::set_post(*old(self), *final(self), image_id@, params, image@, r is Ok),
    {
        let found = self.find_entry(&image_id);
        match found {
            Option::None => {
                let ghost pre = *self;
                let ghost imgv = image@;
                let ghost evid = if pre.entries@.len() > 0 { pre.entries@[0].id@ } else {
                    Seq::empty()
                };
                if self.entries.len() == self.capacity {
                    let _ = self.entries.remove(0);
                    proof {
                        lemma_after_remove(pre, *self, 0, evid);
                        if has_id(self.entries@, image_id@) {
                            let j = choose|j: int| 0 <= j < self.entries@.len()
                                && self.entries@[j].id@ == image_id@;
                            assert(pre.entries@[j + 1].id@ == image_id@);
                            assert(has_id(pre.entries@, image_id@));
                        }
                    }
                }
                let ghost mid = *self;
                let mut ps: Vec<ProcessingParams> = Vec::new();
                ps.push(params);
                let mut imgs: Vec<ImageContainer> = Vec::new();
                imgs.push(image);
                self.entries.push(IdEntry { id: image_id, params: ps, images: imgs });
                proof {
                    lemma_after_push(mid, *self, image_id@, params, imgv);
                    if pre.entries@.len() == pre.capacity {
                        assert(evid != image_id@) by {
                            assert(pre.entries@[0].id@ == evid);
                            if evid == image_id@ {
                                assert(has_id(pre.entries@, image_id@));
                            }
                        }
                        lemma_evict_compose(pre, mid, *self, image_id@, evid);
                    }
                }
                Result::Ok(())
            },
            Option::Some(i) => {
                proof {
                    lemma_idx_is(self.entries@, image_id@, i as int);
                }
                let (pos, present) = find_insert_pos(&self.entries[i].params, &params);
                if present {
                    proof {
                        lemma_pos_is(self.entries@[i as int].params@, params, pos as int);
                        assert(self.has_variant(image_id@, params)) by {
                            assert(self.entries@[i as int].params@.contains(params));
                        }
                    }
                    return Result::Ok(());
                }
                proof {
                    lemma_no_variant(*self, image_id@, params, i as int);
                }
                if self.entries[i].params.len() < self.max_options_per_image {
                    let ghost pre = *self;
                    let ghost imgv = image@;
                    let mut entry = self.entries.remove(i);
                    entry.params.insert(pos, params);
                    entry.images.insert(pos, image);
                    self.entries.insert(i, entry);
                    proof {
                        lemma_after_insert(pre, *self, i as int, pos as int, image_id@, params, imgv);
                    }
                    Result::Ok(())
                } else {
                    match self.overflow_policy {
                        ImageOptionsOverflowPolicy::Restrict => {
                            Result::Err(ProcessingError {
                                error: "Limit exceed. No any new image formats allowed",
                            })
                        },
                        ImageOptionsOverflowPolicy::Rewrite => {
                            let ghost pre = *self;
                            let ghost imgv = image@;
                            let mut entry = self.entries.remove(i);
                            let _ = entry.params.pop();
                            let _ = entry.images.pop();
                            let at: usize = if pos < entry.params.len() { pos } else {
                                entry.params.len()
                            };
                            entry.params.insert(at, params);
                            entry.images.insert(at, image);
                            self.entries.insert(i, entry);
                            proof {
                                lemma_after_rewrite(pre, *self, i as int, pos as int, at as int,
                                    image_id@, params, imgv);
                            }
                            Result::Ok(())
                        },
                    }
                }
            },
        }
    }

    /// Evicts every variant of `image_id`, and its variant index with them.
    pub fn remove(&mut self, image_id: ImageId)
        requires
            old(self).inv(),
        ensures
            final(self).inv(),
            final(self).max_options_per_image == old(self).max_options_per_image,
            final(self).overflow_policy == old(self).overflow_policy,
            forall|q: ProcessingParams| !final(self).has_variant(image_id@, q),
            final(self).variant_count(image_id@) == 0,
            Self::other_ids_unchanged(*old(self), *final(self), image_id@),
            Self::remove_post(*old(self), *final(self), image_id@),
    {
        let found = self.find_entry(&image_id);
        if let Option::Some(i) = found {
            let ghost pre = *self;
            let _ = self.entries.remove(i);
            proof {
                lemma_after_remove(pre, *self, i as int, image_id@);
            }
        } else {
            proof {
                assert forall|q: ProcessingParams| !self.has_variant(image_id@, q) by {
                    if self.has_variant(image_id@, q) {
                        let i = choose|i: int| 0 <= i < self.entries@.len()
                            && self.entries@[i].id@ == image_id@
                            && self.entries@[i].params@.contains(q);
                        assert(has_id(self.entries@, image_id@));
                    }
                }
            }
        }
    }
}

/// A payload is stored for `(id, p)`: some entry for `id` holds an image in
/// the slot aligned with parameter record `p`.
pub open spec fn payload_stored(c: MemoryProcessedImageCache, id: Seq<char>,
    p: ProcessingParams) -> bool {
    exists|i: int, k: int| 0 <= i < c.entries@.len() && c.entries@[i].id@ == id
        && 0 <= k < c.entries@[i].images@.len() && c.entries@[i].params@[k] == p
}

/// The set of cached payload keys for an identifier equals its variant
/// index: every stored payload is indexed, and every indexed parameter
/// record has its payload.
pub proof fn lemma_variant_index_matches_payloads(c: MemoryProcessedImageCache, id: Seq<char>,
    p: ProcessingParams)
    requires
        c.inv(),
    ensures
        payload_stored(c, id, p) == c.has_variant(id, p),
{
    if payload_stored(c, id, p) {
        let (i, k) = choose|i: int, k: int| 0 <= i < c.entries@.len() && c.entries@[i].id@ == id
            && 0 <= k < c.entries@[i].images@.len() && c.entries@[i].params@[k] == p;
        assert(c.entries@[i].params@.contains(p)) by {
            assert(c.entries@[i].params@[k] == p);
        }
        assert(c.has_variant(id, p));
    }
    if c.has_variant(id, p) {
        let i = choose|i: int| 0 <= i < c.entries@.len() && c.entries@[i].id@ == id
            && c.entries@[i].params@.contains(p);
        let k = choose|k: int| 0 <= k < c.entries@[i].params@.len()
            && c.entries@[i].params@[k] == p;
        assert(0 <= k < c.entries@[i].images@.len());
        assert(payload_stored(c, id, p));
    }
}

/// No identifier ever holds more variants than the configured budget.
pub proof fn lemma_variant_budget(c: MemoryProcessedImageCache, id: Seq<char>)
    requires
        c.inv(),
    ensures
        c.variant_count(id) <= c.max_options_per_image,
{
    if has_id(c.entries@, id) {
        let i = idx_of(c.entries@, id);
        assert(0 <= i < c.entries@.len() && c.entries@[i].id@ == id);
    }
}

/// A completed `set(id, p, v)` that admitted the variant, followed by a
/// `get(id, p)` with no eviction or removal in between, returns `v`: the
/// state after the `set` holds the variant with payload `v`, and `get`'s
/// contract returns exactly the held payload.
pub proof fn lemma_get_after_set(pre: MemoryProcessedImageCache, post: MemoryProcessedImageCache,
    id: Seq<char>, p: ProcessingParams, img: ImageContainerView)
    requires
        MemoryProcessedImageCache::set_added_post(pre, post, id, p, img)
            || MemoryProcessedImageCache::set_rewrite_post(pre, post, id, p, img),
    ensures
        post.has_variant(id, p),
        post.variant_at(id, p) == img,
{
}

/// Locates where `p` sits, or would sit, in a sorted parameter list.
pub(crate) fn find_insert_pos(ps: &Vec<ProcessingParams>, p: &ProcessingParams) -> (r: (usize, bool))
    requires
        sorted_strict(ps@),
    ensures
        r.0 <= ps@.len(),
        r.1 == ps@.contains(*p),
        r.1 ==> r.0 < ps@.len() && ps@[r.0 as int] == *p,
        forall|k: int| 0 <= k < r.0 ==> param_lt(#[trigger] ps@[k], *p),
        !r.1 ==> forall|k: int| r.0 <= k < ps@.len() ==> param_lt(*p, #[trigger] ps@[k]),
    {
    let mut j: usize = 0;
    while j < ps.len()
        invariant
            j <= ps@.len(),
            sorted_strict(ps@),
            forall|k: int| 0 <= k < j ==> param_lt(#[trigger] ps@[k], *p),
        decreases ps@.len() - j,
    {
        if ps[j].lt(p) {
            j = j + 1;
        } else if ps[j] == *p {
            proof {
                assert(ps@.contains(*p)) by {
                    assert(ps@[j as int] == *p);
                }
            }
            return (j, true);
        } else {
            proof {
                lemma_param_order_trichotomy(ps@[j as int], *p);
                assert forall|k: int| j <= k < ps@.len() implies param_lt(*p, #[trigger] ps@[k]) by {
                    if k > j {
                        lemma_param_order_transitive(*p, ps@[j as int], ps@[k]);
                    }
                }
                assert(!ps@.contains(*p)) by {
                    assert forall|k: int| 0 <= k < ps@.len() implies ps@[k] != *p by {
                        if k < j {
                            lemma_param_order_trichotomy(ps@[k], *p);
                        } else {
                            lemma_param_order_trichotomy(*p, ps@[k]);
                        }
                    }
                }
            }
            return (j, false);
        }
    }
    proof {
        assert(!ps@.contains(*p)) by {
            assert forall|k: int| 0 <= k < ps@.len() implies ps@[k] != *p by {
                lemma_param_order_trichotomy(ps@[k], *p);
            }
        }
    }
    (j, false)
}

/// Composes an eviction of identifier `ev` with a later step that leaves
/// every identifier but `id` untouched: only `ev` and `id` moved overall.
proof fn lemma_evict_compose(pre: MemoryProcessedImageCache, mid: MemoryProcessedImageCache,
    post: MemoryProcessedImageCache, id: Seq<char>, ev: Seq<char>)
    requires
        forall|q: ProcessingParams| !mid.has_variant(ev, q),
        mid.variant_count(ev) == 0,
        MemoryProcessedImageCache::other_ids_unchanged(pre, mid, ev),
        MemoryProcessedImageCache::other_ids_unchanged(mid, post, id),
        ev != id,
    ensures
        MemoryProcessedImageCache::oldest_evicted_for(pre, post, id, ev),
{
    assert forall|q: ProcessingParams| !post.has_variant(ev, q) by {
        assert(!mid.has_variant(ev, q));
        assert(post.has_variant(ev, q) == mid.has_variant(ev, q));
    }
    let qa = ProcessingParams {
        width: Option::None,
        height: Option::None,
        extension: Option::None,
        quality: Option::None,
        ratio_policy: Option::None,
    };
    assert(post.has_variant(ev, qa) == mid.has_variant(ev, qa));
    assert(post.variant_count(ev) == mid.variant_count(ev));
    assert forall|id2: Seq<char>, q: ProcessingParams| id2 != id && id2 != ev implies {
        &&& #[trigger] post.has_variant(id2, q) == pre.has_variant(id2, q)
        &&& (pre.has_variant(id2, q) ==> post.variant_at(id2, q) == pre.variant_at(id2, q))
        &&& post.variant_count(id2) == pre.variant_count(id2)
    } by {
        assert(mid.has_variant(id2, q) == pre.has_variant(id2, q));
        assert(post.has_variant(id2, q) == mid.has_variant(id2, q));
        assert(mid.variant_count(id2) == pre.variant_count(id2));
        assert(post.variant_count(id2) == mid.variant_count(id2));
        if pre.has_variant(id2, q) {
            assert(mid.variant_at(id2, q) == pre.variant_at(id2, q));
            assert(post.variant_at(id2, q) == mid.variant_at(id2, q));
        }
    }
}

/// With unique identifiers, `idx_of` returns the index of any witness.
proof fn lemma_idx_is(s: Seq<IdEntry>, id: Seq<char>, i: int)
    requires
        ids_unique(s),
        0 <= i < s.len(),
        s[i].id@ == id,
    ensures
        has_id(s, id),
        idx_of(s, id) == i,
{
    assert(has_id(s, id));
    let j = idx_of(s, id);
    assert(0 <= j < s.len() && s[j].id@ == id);
    if i < j {
        assert(false);
    } else if j < i {
        assert(false);
    }
}

/// In a strictly sorted list every value sits at one position only.
proof fn lemma_pos_is(ps: Seq<ProcessingParams>, p: ProcessingParams, k: int)
    requires
        sorted_strict(ps),
        0 <= k < ps.len(),
        ps[k] == p,
    ensures
        ps.contains(p),
        pos_of(ps, p) == k,
{
    assert(ps.contains(p)) by {
        assert(ps[k] == p);
    }
    let k2 = pos_of(ps, p);
    assert(0 <= k2 < ps.len() && ps[k2] == p) by {
        assert(ps[k] == p);
    }
    if k2 < k {
        lemma_param_order_trichotomy(ps[k2], ps[k]);
    } else if k < k2 {
        lemma_param_order_trichotomy(ps[k], ps[k2]);
    }
}

/// An identifier whose entry lacks `p` has no `(id, p)` variant.
proof fn lemma_no_variant(c: MemoryProcessedImageCache, id: Seq<char>, p: ProcessingParams, i: int)
    requires
        ids_unique(c.entries@),
        0 <= i < c.entries@.len(),
        c.entries@[i].id@ == id,
        !c.entries@[i].params@.contains(p),
    ensures
        !c.has_variant(id, p),
{
    if c.has_variant(id, p) {
        let j = choose|j: int| 0 <= j < c.entries@.len() && c.entries@[j].id@ == id
            && c.entries@[j].params@.contains(p);
        lemma_idx_is(c.entries@, id, j);
        lemma_idx_is(c.entries@, id, i);
    }
}

/// If `id2`'s entry (if any) sits unchanged at the same index in `pre` and
/// `post`, everything observed about `id2` is unchanged.
proof fn lemma_same_entry_unchanged(pre: MemoryProcessedImageCache,
    post: MemoryProcessedImageCache, id2: Seq<char>)
    requires
        ids_unique(pre.entries@),
        ids_unique(post.entries@),
        forall|j: int| 0 <= j < pre.entries@.len() && (#[trigger] pre.entries@[j]).id@ == id2
            ==> j < post.entries@.len() && post.entries@[j] == pre.entries@[j],
        forall|j: int| 0 <= j < post.entries@.len() && (#[trigger] post.entries@[j]).id@ == id2
            ==> j < pre.entries@.len() && post.entries@[j] == pre.entries@[j],
    ensures
        forall|q: ProcessingParams| #[trigger] post.has_variant(id2, q) == pre.has_variant(id2, q),
        forall|q: ProcessingParams| pre.has_variant(id2, q)
            ==> #[trigger] post.variant_at(id2, q) == pre.variant_at(id2, q),
        post.variant_count(id2) == pre.variant_count(id2),
{
    assert forall|q: ProcessingParams| #[trigger] post.has_variant(id2, q)
        == pre.has_variant(id2, q) by {
        if pre.has_variant(id2, q) {
            let i = choose|i: int| 0 <= i < pre.entries@.len() && pre.entries@[i].id@ == id2
                && pre.entries@[i].params@.contains(q);
            assert(post.entries@[i] == pre.entries@[i]);
            assert(post.has_variant(id2, q));
        }
        if post.has_variant(id2, q) {
            let i = choose|i: int| 0 <= i < post.entries@.len() && post.entries@[i].id@ == id2
                && post.entries@[i].params@.contains(q);
            assert(pre.entries@[i] == post.entries@[i]);
            assert(pre.has_variant(id2, q));
        }
    }
    if has_id(pre.entries@, id2) {
        let i = idx_of(pre.entries@, id2);
        assert(0 <= i < pre.entries@.len() && pre.entries@[i].id@ == id2);
        assert(post.entries@[i] == pre.entries@[i]);
        lemma_idx_is(post.entries@, id2, i);
        assert(post.variant_count(id2) == pre.variant_count(id2));
        assert forall|q: ProcessingParams| pre.has_variant(id2, q)
            implies #[trigger] post.variant_at(id2, q) == pre.variant_at(id2, q) by {
            assert(post.entries@[i] == pre.entries@[i]);
        }
    } else {
        if has_id(post.entries@, id2) {
            let i = idx_of(post.entries@, id2);
            assert(pre.entries@[i] == post.entries@[i]);
            assert(has_id(pre.entries@, id2));
        }
        assert(post.variant_count(id2) == 0);
    }
}

proof fn lemma_after_push(pre: MemoryProcessedImageCache, post: MemoryProcessedImageCache,
    id: Seq<char>, p: ProcessingParams, img: ImageContainerView)
    requires
        pre.inv(),
        !has_id(pre.entries@, id),
        post.capacity == pre.capacity,
        post.entries@.len() <= post.capacity,
        post.max_options_per_image == pre.max_options_per_image,
        post.overflow_policy == pre.overflow_policy,
        post.entries@.len() == pre.entries@.len() + 1,
        forall|j: int| 0 <= j < pre.entries@.len()
            ==> #[trigger] post.entries@[j] == pre.entries@[j],
        post.entries@.last().id@ == id,
        post.entries@.last().params@.len() == 1,
        post.entries@.last().images@.len() == 1,
        post.entries@.last().params@[0] == p,
        post.entries@.last().images@[0]@ == img,
    ensures
        post.inv(),
        pre.variant_count(id) == 0,
        !pre.has_variant(id, p),
        post.variant_count(id) == 1,
        MemoryProcessedImageCache::set_added_post(pre, post, id, p, img),
        MemoryProcessedImageCache::other_ids_unchanged(pre, post, id),
{
    let n = pre.entries@.len() as int;
    assert(post.entries@[n].id@ == id);
    assert(ids_unique(post.entries@)) by {
        assert forall|i: int, j: int| 0 <= i < j < post.entries@.len()
            implies post.entries@[i].id@ != post.entries@[j].id@ by {
            if j < n {
            } else {
                assert(post.entries@[j].id@ == id);
                if post.entries@[i].id@ == id {
                    assert(has_id(pre.entries@, id));
                }
            }
        }
    }
    assert(sorted_strict(post.entries@[n].params@));
    assert(post.inv()) by {
        assert forall|j: int| 0 <= j < post.entries@.len() implies {
            &&& sorted_strict(#[trigger] post.entries@[j].params@)
            &&& post.entries@[j].params@.len() == post.entries@[j].images@.len()
            &&& 1 <= post.entries@[j].params@.len() <= post.max_options_per_image
        } by {
            if j < n {
                assert(post.entries@[j] == pre.entries@[j]);
            }
        }
    }
    lemma_idx_is(post.entries@, id, n);
    lemma_pos_is(post.entries@[n].params@, p, 0);
    assert(post.has_variant(id, p)) by {
        assert(post.entries@[n].params@.contains(p));
    }
    assert(post.variant_count(id) == 1);
    assert forall|q: ProcessingParams| !(#[trigger] pre.has_variant(id, q)) by {
        if pre.has_variant(id, q) {
            let i = choose|i: int| 0 <= i < pre.entries@.len() && pre.entries@[i].id@ == id
                && pre.entries@[i].params@.contains(q);
            assert(has_id(pre.entries@, id));
        }
    }
    assert forall|q: ProcessingParams| q != p implies !(#[trigger] post.has_variant(id, q)) by {
        if post.has_variant(id, q) {
            let i = choose|i: int| 0 <= i < post.entries@.len() && post.entries@[i].id@ == id
                && post.entries@[i].params@.contains(q);
            lemma_idx_is(post.entries@, id, i);
            assert(i == n);
            let k = choose|k: int| 0 <= k < post.entries@[n].params@.len()
                && post.entries@[n].params@[k] == q;
            assert(k == 0);
        }
    }
    assert(post.variant_at(id, p) == img);
    assert(MemoryProcessedImageCache::set_added_post(pre, post, id, p, img));
    assert(MemoryProcessedImageCache::other_ids_unchanged(pre, post, id)) by {
        assert forall|id2: Seq<char>, q: ProcessingParams| id2 != id implies {
            &&& #[trigger] post.has_variant(id2, q) == pre.has_variant(id2, q)
            &&& (pre.has_variant(id2, q) ==> post.variant_at(id2, q) == pre.variant_at(id2, q))
            &&& post.variant_count(id2) == pre.variant_count(id2)
        } by {
            assert forall|j: int| 0 <= j < post.entries@.len()
                && (#[trigger] post.entries@[j]).id@ == id2
                implies j < pre.entries@.len() && post.entries@[j] == pre.entries@[j] by {
                assert(j != n);
            }
            lemma_same_entry_unchanged(pre, post, id2);
        }
    }
}

proof fn lemma_after_insert(pre: MemoryProcessedImageCache, post: MemoryProcessedImageCache,
    i: int, pos: int, id: Seq<char>, p: ProcessingParams, img: ImageContainerView)
    requires
        post.capacity == pre.capacity,
        post.entries@.len() == pre.entries@.len() && 0 <= i < post.entries@.len()
            && pos < post.entries@[i].images@.len() && post.entries@[i].images@[pos]@ == img,
        pre.inv(),
        post.max_options_per_image == pre.max_options_per_image,
        post.overflow_policy == pre.overflow_policy,
        0 <= i < pre.entries@.len(),
        pre.entries@[i].id@ == id,
        !pre.entries@[i].params@.contains(p),
        pre.entries@[i].params@.len() < pre.max_options_per_image,
        0 <= pos <= pre.entries@[i].params@.len(),
        forall|k: int| 0 <= k < pos ==> param_lt(#[trigger] pre.entries@[i].params@[k], p),
        forall|k: int| pos <= k < pre.entries@[i].params@.len()
            ==> param_lt(p, #[trigger] pre.entries@[i].params@[k]),
        post.entries@.len() == pre.entries@.len(),
        forall|j: int| 0 <= j < pre.entries@.len() && j != i
            ==> #[trigger] post.entries@[j] == pre.entries@[j],
        post.entries@[i].id@ == id,
        post.entries@[i].params@.len() == pre.entries@[i].params@.len() + 1,
        post.entries@[i].images@.len() == pre.entries@[i].images@.len() + 1,
        forall|k: int| 0 <= k < pos ==> #[trigger] post.entries@[i].params@[k]
            == pre.entries@[i].params@[k],
        post.entries@[i].params@[pos] == p,
        forall|k: int| pos < k < post.entries@[i].params@.len()
            ==> #[trigger] post.entries@[i].params@[k] == pre.entries@[i].params@[k - 1],
        forall|k: int| 0 <= k < pos ==> #[trigger] post.entries@[i].images@[k]
            == pre.entries@[i].images@[k],
        forall|k: int| pos < k < post.entries@[i].images@.len()
            ==> #[trigger] post.entries@[i].images@[k] == pre.entries@[i].images@[k - 1],
    ensures
        post.inv(),
        pre.variant_count(id) == pre.entries@[i].params@.len(),
        post.variant_count(id) == pre.variant_count(id) + 1,
        MemoryProcessedImageCache::set_added_post(pre, post, id, p, img),
        MemoryProcessedImageCache::other_ids_unchanged(pre, post, id),
{
    let preps = pre.entries@[i].params@;
    let postps = post.entries@[i].params@;
    let n = preps.len() as int;
    assert(postps.len() == n + 1);

    assert(sorted_strict(postps)) by {
        assert forall|a: int, b: int| 0 <= a < b < postps.len()
            implies param_lt(postps[a], postps[b]) by {
            if a == pos {
                assert(param_lt(p, preps[b - 1]));
            } else if b == pos {
                assert(param_lt(preps[a], p));
            } else if a < pos && b > pos {
                assert(param_lt(preps[a], preps[b - 1]));
            }
        }
    }
    assert(ids_unique(post.entries@)) by {
        assert forall|a: int, b: int| 0 <= a < b < post.entries@.len()
            implies post.entries@[a].id@ != post.entries@[b].id@ by {
            assert(pre.entries@[a].id@ != pre.entries@[b].id@);
            if a != i {
                assert(post.entries@[a] == pre.entries@[a]);
            }
            if b != i {
                assert(post.entries@[b] == pre.entries@[b]);
            }
        }
    }
    assert(post.inv()) by {
        assert forall|j: int| 0 <= j < post.entries@.len() implies {
            &&& sorted_strict(#[trigger] post.entries@[j].params@)
            &&& post.entries@[j].params@.len() == post.entries@[j].images@.len()
            &&& 1 <= post.entries@[j].params@.len() <= post.max_options_per_image
        } by {
            if j != i {
                assert(post.entries@[j] == pre.entries@[j]);
            }
        }
    }
    lemma_idx_is(pre.entries@, id, i);
    lemma_idx_is(post.entries@, id, i);
    lemma_pos_is(postps, p, pos);
    assert(post.has_variant(id, p)) by {
        assert(postps[pos] == p);
        assert(postps.contains(p));
    }
    assert(post.variant_at(id, p) == post.entries@[i].images@[pos]@);
    assert(post.variant_count(id) == pre.variant_count(id) + 1);

    assert forall|q: ProcessingParams| q != p implies {
        &&& #[trigger] post.has_variant(id, q) == pre.has_variant(id, q)
        &&& (pre.has_variant(id, q) ==> post.variant_at(id, q) == pre.variant_at(id, q))
    } by {
        if pre.has_variant(id, q) {
            let j = choose|j: int| 0 <= j < pre.entries@.len() && pre.entries@[j].id@ == id
                && pre.entries@[j].params@.contains(q);
            lemma_idx_is(pre.entries@, id, j);
            let k = choose|k: int| 0 <= k < preps.len() && preps[k] == q;
            let k2: int = if k < pos { k } else { k + 1 };
            assert(postps[k2] == q);
            assert(post.has_variant(id, q)) by {
                assert(postps.contains(q));
            }
            lemma_pos_is(preps, q, k);
            lemma_pos_is(postps, q, k2);
            assert(post.entries@[i].images@[k2] == pre.entries@[i].images@[k]);
            assert(post.variant_at(id, q) == pre.variant_at(id, q));
        }
        if post.has_variant(id, q) {
            let j = choose|j: int| 0 <= j < post.entries@.len() && post.entries@[j].id@ == id
                && post.entries@[j].params@.contains(q);
            lemma_idx_is(post.entries@, id, j);
            let k2 = choose|k2: int| 0 <= k2 < postps.len() && postps[k2] == q;
            assert(k2 != pos);
            let k: int = if k2 < pos { k2 } else { k2 - 1 };
            assert(preps[k] == q);
            assert(pre.has_variant(id, q)) by {
                assert(preps.contains(q));
            }
        }
    }
    assert(MemoryProcessedImageCache::set_added_post(pre, post, id, p, img));

    assert(MemoryProcessedImageCache::other_ids_unchanged(pre, post, id)) by {
        assert forall|id2: Seq<char>, q: ProcessingParams| id2 != id implies {
            &&& #[trigger] post.has_variant(id2, q) == pre.has_variant(id2, q)
            &&& (pre.has_variant(id2, q) ==> post.variant_at(id2, q) == pre.variant_at(id2, q))
            &&& post.variant_count(id2) == pre.variant_count(id2)
        } by {
            assert forall|j: int| 0 <= j < pre.entries@.len()
                && (#[trigger] pre.entries@[j]).id@ == id2
                implies j < post.entries@.len() && post.entries@[j] == pre.entries@[j] by {
                assert(j != i);
            }
            assert forall|j: int| 0 <= j < post.entries@.len()
                && (#[trigger] post.entries@[j]).id@ == id2
                implies j < pre.entries@.len() && post.entries@[j] == pre.entries@[j] by {
                assert(j != i);
            }
            lemma_same_entry_unchanged(pre, post, id2);
        }
    }
}

proof fn lemma_after_rewrite(pre: MemoryProcessedImageCache, post: MemoryProcessedImageCache,
    i: int, pos: int, at: int, id: Seq<char>, p: ProcessingParams, img: ImageContainerView)
    requires
        post.capacity == pre.capacity,
        post.entries@.len() == pre.entries@.len() && 0 <= i < post.entries@.len()
            && 0 <= at < post.entries@[i].images@.len() && post.entries@[i].images@[at]@ == img,
        pre.inv(),
        post.max_options_per_image == pre.max_options_per_image,
        post.overflow_policy == pre.overflow_policy,
        0 <= i < pre.entries@.len(),
        pre.entries@[i].id@ == id,
        !pre.entries@[i].params@.contains(p),
        pre.entries@[i].params@.len() == pre.max_options_per_image,
        0 <= pos <= pre.entries@[i].params@.len(),
        forall|k: int| 0 <= k < pos ==> param_lt(#[trigger] pre.entries@[i].params@[k], p),
        forall|k: int| pos <= k < pre.entries@[i].params@.len()
            ==> param_lt(p, #[trigger] pre.entries@[i].params@[k]),
        at == if pos < pre.entries@[i].params@.len() - 1 { pos } else {
            pre.entries@[i].params@.len() - 1
        },
        post.entries@.len() == pre.entries@.len(),
        forall|j: int| 0 <= j < pre.entries@.len() && j != i
            ==> #[trigger] post.entries@[j] == pre.entries@[j],
        post.entries@[i].id@ == id,
        post.entries@[i].params@.len() == pre.entries@[i].params@.len(),
        post.entries@[i].images@.len() == pre.entries@[i].images@.len(),
        forall|k: int| 0 <= k < at ==> #[trigger] post.entries@[i].params@[k]
            == pre.entries@[i].params@[k],
        post.entries@[i].params@[at] == p,
        forall|k: int| at < k < post.entries@[i].params@.len()
            ==> #[trigger] post.entries@[i].params@[k] == pre.entries@[i].params@[k - 1],
        forall|k: int| 0 <= k < at ==> #[trigger] post.entries@[i].images@[k]
            == pre.entries@[i].images@[k],
        forall|k: int| at < k < post.entries@[i].images@.len()
            ==> #[trigger] post.entries@[i].images@[k] == pre.entries@[i].images@[k - 1],
    ensures
        post.inv(),
        pre.variant_count(id) == pre.entries@[i].params@.len(),
        post.variant_count(id) == pre.variant_count(id),
        MemoryProcessedImageCache::set_rewrite_post(pre, post, id, p, img),
        MemoryProcessedImageCache::other_ids_unchanged(pre, post, id),
{
    let preps = pre.entries@[i].params@;
    let postps = post.entries@[i].params@;
    let n = preps.len() as int;
    assert(n >= 1);
    lemma_idx_is(pre.entries@, id, i);
    let g = pre.greatest_variant(id);
    assert(g == preps[n - 1]);
    assert(pre.has_variant(id, g)) by {
        assert(preps.contains(g)) by {
            assert(preps[n - 1] == g);
        }
    }
    // p was absent, so pos aims strictly below the last slot or past the end
    assert(at == if pos < n - 1 { pos } else { n - 1 });
    assert(postps.len() == n);

    assert forall|q: ProcessingParams| pre.has_variant(id, q)
        implies #[trigger] param_lt(q, g) || q == g by {
        let j = choose|j: int| 0 <= j < pre.entries@.len() && pre.entries@[j].id@ == id
            && pre.entries@[j].params@.contains(q);
        lemma_idx_is(pre.entries@, id, j);
        let k = choose|k: int| 0 <= k < preps.len() && preps[k] == q;
        if k < n - 1 {
            assert(param_lt(preps[k], preps[n - 1]));
        }
    }

    // if pos pointed past the kept slots, p is still above every kept element
    assert forall|a: int, b: int| 0 <= a < b < postps.len()
        implies param_lt(postps[a], postps[b]) by {
        if a == at {
            if pos < n - 1 {
                assert(param_lt(p, preps[b - 1]));
            } else {
                assert(b >= n);
            }
        } else if b == at {
            if pos < n - 1 {
                assert(param_lt(preps[a], p));
            } else {
                assert(a < n - 1);
                assert(param_lt(preps[a], p));
            }
        } else if a < at && b > at {
            assert(param_lt(preps[a], preps[b - 1]));
        }
    }
    assert(sorted_strict(postps));
    assert(ids_unique(post.entries@)) by {
        assert forall|a: int, b: int| 0 <= a < b < post.entries@.len()
            implies post.entries@[a].id@ != post.entries@[b].id@ by {
            assert(pre.entries@[a].id@ != pre.entries@[b].id@);
            if a != i {
                assert(post.entries@[a] == pre.entries@[a]);
            }
            if b != i {
                assert(post.entries@[b] == pre.entries@[b]);
            }
        }
    }
    assert(post.inv()) by {
        assert forall|j: int| 0 <= j < post.entries@.len() implies {
            &&& sorted_strict(#[trigger] post.entries@[j].params@)
            &&& post.entries@[j].params@.len() == post.entries@[j].images@.len()
            &&& 1 <= post.entries@[j].params@.len() <= post.max_options_per_image
        } by {
            if j != i {
                assert(post.entries@[j] == pre.entries@[j]);
            }
        }
    }
    lemma_idx_is(post.entries@, id, i);
    lemma_pos_is(postps, p, at);
    assert(post.has_variant(id, p)) by {
        assert(postps[at] == p);
        assert(postps.contains(p));
    }
    assert(post.variant_at(id, p) == post.entries@[i].images@[at]@);
    assert(post.variant_count(id) == pre.variant_count(id));

    // the greatest record is gone
    assert(!post.has_variant(id, g)) by {
        if post.has_variant(id, g) {
            let j = choose|j: int| 0 <= j < post.entries@.len() && post.entries@[j].id@ == id
                && post.entries@[j].params@.contains(g);
            lemma_idx_is(post.entries@, id, j);
            let k = choose|k: int| 0 <= k < postps.len() && postps[k] == g;
            if k == at {
                assert(preps[n - 1] == g);
                assert(preps.contains(p)) by {
                    assert(preps[n - 1] == p);
                }
            } else if k < at {
                assert(preps[k] == preps[n - 1]);
                assert(param_lt(preps[k], preps[n - 1]));
                lemma_param_order_trichotomy(preps[k], preps[n - 1]);
            } else {
                assert(preps[k - 1] == g);
                assert(param_lt(preps[k - 1], preps[n - 1]));
                lemma_param_order_trichotomy(preps[k - 1], preps[n - 1]);
            }
        }
    }

    assert forall|q: ProcessingParams| q != p && q != g implies {
        &&& #[trigger] post.has_variant(id, q) == pre.has_variant(id, q)
        &&& (pre.has_variant(id, q) ==> post.variant_at(id, q) == pre.variant_at(id, q))
    } by {
        if pre.has_variant(id, q) {
            let j = choose|j: int| 0 <= j < pre.entries@.len() && pre.entries@[j].id@ == id
                && pre.entries@[j].params@.contains(q);
            lemma_idx_is(pre.entries@, id, j);
            let k = choose|k: int| 0 <= k < preps.len() && preps[k] == q;
            assert(k < n - 1) by {
                if k == n - 1 {
                    assert(preps[k] == g);
                }
            }
            let k2: int = if k < at { k } else { k + 1 };
            assert(postps[k2] == q);
            assert(post.has_variant(id, q)) by {
                assert(postps.contains(q));
            }
            lemma_pos_is(preps, q, k);
            lemma_pos_is(postps, q, k2);
            assert(post.entries@[i].images@[k2] == pre.entries@[i].images@[k]);
            assert(post.variant_at(id, q) == pre.variant_at(id, q));
        }
        if post.has_variant(id, q) {
            let j = choose|j: int| 0 <= j < post.entries@.len() && post.entries@[j].id@ == id
                && post.entries@[j].params@.contains(q);
            lemma_idx_is(post.entries@, id, j);
            let k2 = choose|k2: int| 0 <= k2 < postps.len() && postps[k2] == q;
            assert(k2 != at);
            let k: int = if k2 < at { k2 } else { k2 - 1 };
            assert(preps[k] == q);
            assert(pre.has_variant(id, q)) by {
                assert(preps.contains(q));
            }
        }
    }
    assert(MemoryProcessedImageCache::set_rewrite_post(pre, post, id, p, img));

    assert(MemoryProcessedImageCache::other_ids_unchanged(pre, post, id)) by {
        assert forall|id2: Seq<char>, q: ProcessingParams| id2 != id implies {
            &&& #[trigger] post.has_variant(id2, q) == pre.has_variant(id2, q)
            &&& (pre.has_variant(id2, q) ==> post.variant_at(id2, q) == pre.variant_at(id2, q))
            &&& post.variant_count(id2) == pre.variant_count(id2)
        } by {
            assert forall|j: int| 0 <= j < pre.entries@.len()
                && (#[trigger] pre.entries@[j]).id@ == id2
                implies j < post.entries@.len() && post.entries@[j] == pre.entries@[j] by {
                assert(j != i);
            }
            assert forall|j: int| 0 <= j < post.entries@.len()
                && (#[trigger] post.entries@[j]).id@ == id2
                implies j < pre.entries@.len() && post.entries@[j] == pre.entries@[j] by {
                assert(j != i);
            }
            lemma_same_entry_unchanged(pre, post, id2);
        }
    }
}

proof fn lemma_after_remove(pre: MemoryProcessedImageCache, post: MemoryProcessedImageCache,
    i: int, id: Seq<char>)
    requires
        pre.inv(),
        post.capacity == pre.capacity,
        post.max_options_per_image == pre.max_options_per_image,
        post.overflow_policy == pre.overflow_policy,
        0 <= i < pre.entries@.len(),
        pre.entries@[i].id@ == id,
        post.entries@ =~= pre.entries@.remove(i),
    ensures
        post.inv(),
        forall|q: ProcessingParams| !post.has_variant(id, q),
        post.variant_count(id) == 0,
        MemoryProcessedImageCache::other_ids_unchanged(pre, post, id),
{
    let n = pre.entries@.len() as int;
    assert(forall|k: int| 0 <= k < i ==> #[trigger] post.entries@[k] == pre.entries@[k]);
    assert(forall|k: int| i <= k < n - 1 ==> #[trigger] post.entries@[k] == pre.entries@[k + 1]);
    assert(ids_unique(post.entries@)) by {
        assert forall|a: int, b: int| 0 <= a < b < post.entries@.len()
            implies post.entries@[a].id@ != post.entries@[b].id@ by {
            let a2: int = if a < i { a } else { a + 1 };
            let b2: int = if b < i { b } else { b + 1 };
            assert(post.entries@[a] == pre.entries@[a2]);
            assert(post.entries@[b] == pre.entries@[b2]);
        }
    }
    assert(post.inv()) by {
        assert forall|j: int| 0 <= j < post.entries@.len() implies {
            &&& sorted_strict(#[trigger] post.entries@[j].params@)
            &&& post.entries@[j].params@.len() == post.entries@[j].images@.len()
            &&& 1 <= post.entries@[j].params@.len() <= post.max_options_per_image
        } by {
            let j2: int = if j < i { j } else { j + 1 };
            assert(post.entries@[j] == pre.entries@[j2]);
        }
    }
    lemma_idx_is(pre.entries@, id, i);
    assert(!has_id(post.entries@, id)) by {
        if has_id(post.entries@, id) {
            let j = idx_of(post.entries@, id);
            assert(0 <= j < post.entries@.len() && post.entries@[j].id@ == id);
            let j2: int = if j < i { j } else { j + 1 };
            assert(pre.entries@[j2].id@ == id);
            assert(j2 != i);
        }
    }
    assert forall|q: ProcessingParams| !post.has_variant(id, q) by {
        if post.has_variant(id, q) {
            let j = choose|j: int| 0 <= j < post.entries@.len() && post.entries@[j].id@ == id
                && post.entries@[j].params@.contains(q);
            assert(has_id(post.entries@, id));
        }
    }
    assert(MemoryProcessedImageCache::other_ids_unchanged(pre, post, id)) by {
        assert forall|id2: Seq<char>, q: ProcessingParams| id2 != id implies {
            &&& #[trigger] post.has_variant(id2, q) == pre.has_variant(id2, q)
            &&& (pre.has_variant(id2, q) ==> post.variant_at(id2, q) == pre.variant_at(id2, q))
            &&& post.variant_count(id2) == pre.variant_count(id2)
        } by {
            lemma_remove_entry_unchanged(pre, post, i, id2);
        }
    }
}

/// After removing the entry at `i`, an identifier held by another entry is
/// observed unchanged.
proof fn lemma_remove_entry_unchanged(pre: MemoryProcessedImageCache,
    post: MemoryProcessedImageCache, i: int, id2: Seq<char>)
    requires
        ids_unique(pre.entries@),
        ids_unique(post.entries@),
        0 <= i < pre.entries@.len(),
        pre.entries@[i].id@ != id2,
        post.entries@ =~= pre.entries@.remove(i),
    ensures
        forall|q: ProcessingParams| #[trigger] post.has_variant(id2, q) == pre.has_variant(id2, q),
        forall|q: ProcessingParams| pre.has_variant(id2, q)
            ==> #[trigger] post.variant_at(id2, q) == pre.variant_at(id2, q),
        post.variant_count(id2) == pre.variant_count(id2),
{
    let n = pre.entries@.len() as int;
    assert(forall|k: int| 0 <= k < i ==> #[trigger] post.entries@[k] == pre.entries@[k]);
    assert(forall|k: int| i <= k < n - 1 ==> #[trigger] post.entries@[k] == pre.entries@[k + 1]);
    assert forall|q: ProcessingParams| #[trigger] post.has_variant(id2, q)
        == pre.has_variant(id2, q) by {
        if pre.has_variant(id2, q) {
            let j = choose|j: int| 0 <= j < pre.entries@.len() && pre.entries@[j].id@ == id2
                && pre.entries@[j].params@.contains(q);
            assert(j != i);
            let j2: int = if j < i { j } else { j - 1 };
            assert(post.entries@[j2] == pre.entries@[j]);
            assert(post.has_variant(id2, q));
        }
        if post.has_variant(id2, q) {
            let j = choose|j: int| 0 <= j < post.entries@.len() && post.entries@[j].id@ == id2
                && post.entries@[j].params@.contains(q);
            let j2: int = if j < i { j } else { j + 1 };
            assert(pre.entries@[j2] == post.entries@[j]);
            assert(pre.has_variant(id2, q));
        }
    }
    if has_id(pre.entries@, id2) {
        let j = idx_of(pre.entries@, id2);
        assert(0 <= j < pre.entries@.len() && pre.entries@[j].id@ == id2);
        assert(j != i);
        let j2: int = if j < i { j } else { j - 1 };
        assert(post.entries@[j2] == pre.entries@[j]);
        lemma_idx_is(post.entries@, id2, j2);
        assert(post.variant_count(id2) == pre.variant_count(id2));
        assert forall|q: ProcessingParams| pre.has_variant(id2, q)
            implies #[trigger] post.variant_at(id2, q) == pre.variant_at(id2, q) by {
            assert(post.entries@[j2] == pre.entries@[j]);
        }
    } else {
        if has_id(post.entries@, id2) {
            let j = idx_of(post.entries@, id2);
            assert(0 <= j < post.entries@.len() && post.entries@[j].id@ == id2);
            let j2: int = if j < i { j } else { j + 1 };
            assert(pre.entries@[j2] == post.entries@[j]);
            assert(has_id(pre.entries@, id2));
        }
    }
}

} // verus!
