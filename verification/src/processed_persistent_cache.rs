//! Persistent derivative cache over the engine's `cache` (payloads) and
//! `cache_entries` (variant indexes) keyspaces.
//!
//! The admission algorithm is the same as the in-memory cache's, but every
//! read answers from disk: lost writes, stale indexes and undecodable
//! entries all surface as misses, so the contracts here promise only the
//! decisions that are made locally. The payload is written before the index,
//! so a crash between the two leaves at worst a payload that the index does
//! not name.

use vstd::prelude::*;
use crate::codec::{decode_container, decode_params_list, encode_container, encode_params_list};
use crate::image_processing::ProcessingParams;
use crate::keys::{derived_cache_key, removal_prefix_key};
use crate::persistent_store::{PersistSpace, PersistentStore};
use crate::processed_image_cache::{ImageOptionsOverflowPolicy, ProcessingError};
use crate::types::{ImageContainer, ImageId};

verus! {

/// Derivative cache backed by the persistent engine.
pub struct PersistentProcessedImageCache {
    pub store: PersistentStore,
    pub max_options_per_image: usize,
    pub overflow_policy: ImageOptionsOverflowPolicy,
}

impl PersistentProcessedImageCache {
    /// Wraps an engine handle with the admission configuration.
    pub fn new(store: PersistentStore, max_options_per_image: usize,
        overflow_policy: ImageOptionsOverflowPolicy) -> (r: Self)
        requires
            max_options_per_image >= 1,
        ensures
            r.max_options_per_image == max_options_per_image,
            r.overflow_policy == overflow_policy,
    {
        PersistentProcessedImageCache { store, max_options_per_image, overflow_policy }
    }

    /// The variant index of an identifier as last written; an unreadable or
    /// missing index reads as empty.
    fn load_index(&self, image_id: &ImageId) -> (r: Vec<ProcessingParams>) {
        let key = image_id.as_str().as_bytes_vec();
        match self.store.get(PersistSpace::CacheEntries, &key) {
            Option::Some(bytes) => {
                match decode_params_list(&bytes) {
                    Option::Some(ps) => ps,
                    Option::None => Vec::new(),
                }
            },
            Option::None => Vec::new(),
        }
    }

    /// Looks a derivative up on disk; an engine error or an undecodable
    /// payload reads as a miss.
    pub fn get(&self, image_id: &ImageId, params: &ProcessingParams) -> (r: Option<ImageContainer>) {
        let key = derived_cache_key(image_id, params);
        match self.store.get(PersistSpace::Cache, &key) {
            Option::Some(bytes) => decode_container(&bytes),
            Option::None => Option::None,
        }
    }

    /// Number of variants the stored index names for `image_id`.
    pub fn records_count(&self, image_id: &ImageId) -> (r: usize) {
        let idx = self.load_index(image_id);
        idx.len()
    }

    /// Whether a payload is stored under the exact `(image_id, params)` key.
    pub fn have_record(&self, image_id: &ImageId, params: &ProcessingParams) -> (r: bool) {
        let key = derived_cache_key(image_id, params);
        self.store.has_key(PersistSpace::Cache, &key)
    }

    /// The admission policy in force.
    pub fn max_options_per_image_overflow_policy(&self) -> (r: ImageOptionsOverflowPolicy)
        ensures
            r == self.overflow_policy,
    {
        self.overflow_policy
    }

    /// The per-identifier variant budget.
    pub fn max_options_per_image(&self) -> (r: usize)
        ensures
            r == self.max_options_per_image,
    {
        self.max_options_per_image
    }

    /// Inserts a derivative under the admission policy, deciding from what
    /// the disk currently answers: an already-stored key is left as it is; a
    /// full identifier is refused under `Restrict`, and under `Rewrite` the
    /// greatest indexed parameter record is evicted first. The payload is
    /// written before the index. A payload too large to frame is skipped:
    /// the tier is a cache and a skipped write is a later miss.
    pub fn set(&self, image_id: &ImageId, params: &ProcessingParams, image: &ImageContainer)
        -> (r: Result<(), ProcessingError>)
        ensures
            r is Err ==> self.overflow_policy == ImageOptionsOverflowPolicy::Restrict,
    {
        let key = derived_cache_key(image_id, params);
        if self.store.has_key(PersistSpace::Cache, &key) {
            return Result::Ok(());
        }
        let mut idx = self.load_index(image_id);
        if idx.len() >= self.max_options_per_image {
            match self.overflow_policy {
                ImageOptionsOverflowPolicy::Restrict => {
                    return Result::Err(ProcessingError {
                        error: "Limit exceed. No any new image formats allowed",
                    });
                },
                ImageOptionsOverflowPolicy::Rewrite => {
                    if idx.len() > 0 {
                        let at = max_param_index(&idx);
                        let victim = idx.remove(at);
                        let victim_key = derived_cache_key(image_id, &victim);
                        self.store.remove(PersistSpace::Cache, &victim_key);
                    }
                },
            }
        }
        let mut present = false;
        let mut k: usize = 0;
        while k < idx.len()
            invariant
                k <= idx@.len(),
            decreases idx@.len() - k,
        {
            if idx[k] == *params {
                present = true;
            }
            k = k + 1;
        }
        if !present {
            idx.push(*params);
        }
        if self.encodable(image) {
            let payload = encode_container(image);
            let _ = self.store.set(PersistSpace::Cache, &key, &payload);
            if idx.len() <= u32::MAX as usize {
                let index_bytes = encode_params_list(&idx);
                let id_key = image_id.as_str().as_bytes_vec();
                let _ = self.store.set(PersistSpace::CacheEntries, &id_key, &index_bytes);
            }
        }
        Result::Ok(())
    }

    /// Whether a container fits the storage framing (length fields are four
    /// bytes wide).
    fn encodable(&self, image: &ImageContainer) -> (r: bool)
        ensures
            r ==> image.data@.len() <= u32::MAX
                && (image.filename matches Some(f)
                    ==> vstd::utf8::encode_utf8(f@).len() <= u32::MAX),
    {
        if image.data.len() > u32::MAX as usize {
            return false;
        }
        match &image.filename {
            Option::None => true,
            Option::Some(f) => {
                let fb = f.as_str().as_bytes_vec();
                fb.len() <= u32::MAX as usize
            },
        }
    }

    /// Evicts every stored variant of `image_id` by its key prefix, and the
    /// variant index with them.
    pub fn remove(&self, image_id: &ImageId) {
        let prefix = removal_prefix_key(image_id);
        self.store.remove_by_prefix(PersistSpace::Cache, &prefix);
        let id_key = image_id.as_str().as_bytes_vec();
        self.store.remove(PersistSpace::CacheEntries, &id_key);
    }

    /// Durably flushes pending writes.
    pub fn background(&self) -> (r: bool) {
        self.store.persist()
    }
}

/// The position of the greatest parameter record in a nonempty list, under
/// the canonical order.
fn max_param_index(v: &Vec<ProcessingParams>) -> (r: usize)
    requires
        v@.len() >= 1,
    ensures
        r < v@.len(),
        forall|k: int| 0 <= k < v@.len()
            ==> crate::image_processing::param_lt(#[trigger] v@[k], v@[r as int])
                || v@[k] == v@[r as int],
{
    let mut best: usize = 0;
    let mut k: usize = 1;
    while k < v.len()
        invariant
            best < k <= v@.len(),
            forall|j: int| 0 <= j < k
                ==> crate::image_processing::param_lt(#[trigger] v@[j], v@[best as int])
                    || v@[j] == v@[best as int],
        decreases v@.len() - k,
    {
        if v[best].lt(&v[k]) {
            proof {
                assert forall|j: int| 0 <= j < k + 1
                    implies crate::image_processing::param_lt(#[trigger] v@[j], v@[k as int])
                        || v@[j] == v@[k as int] by {
                    if j < k {
                        if crate::image_processing::param_lt(v@[j], v@[best as int]) {
                            crate::image_processing::lemma_param_order_transitive(v@[j],
                                v@[best as int], v@[k as int]);
                        }
                    }
                }
            }
            best = k;
        } else {
            proof {
                crate::image_processing::lemma_param_order_trichotomy(v@[best as int],
                    v@[k as int]);
            }
        }
        k = k + 1;
    }
    best
}

} // verus!
