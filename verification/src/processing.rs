//! The processor: lookup, upstream hand-off, decode, resize, encode, and
//! population of both cache tiers.
//!
//! The upstream HTTP call cannot happen here, so `get` answers either with a
//! finished result or with a directive to fetch; the caller performs the
//! fetch and hands its outcome to `resolve_upstream`, which finishes the
//! pipeline.

use vstd::prelude::*;
use crate::image_processing::{quality_ok, ProcessingParams};
use crate::image_types::{spec_sniff, sniff_format, Extensions};
use crate::img_ops::{apply_plan, decode_ok, decode_pixels, decoded_height, decoded_width, encode_pixels};
use crate::processed_image_cache::{ImageOptionsOverflowPolicy, MemoryProcessedImageCache};
use crate::processed_persistent_cache::PersistentProcessedImageCache;
use crate::proxying_images::FileApiError;
use crate::resize::plan_resize;
use crate::storage::Storage;
use crate::types::{FilenameHints, ImageContainer, ImageContainerView, ImageId};

verus! {

/// The kinds of failure a request can end in.
#[derive(Debug, PartialEq, Eq, Structural, Clone, Copy)]
pub enum ProcessingErrorType {
    UnsupportingExtension,
    NotFound,
    FileApiError,
    ProcessedImagesLimit,
    InvalidSize,
}

/// The stock wording of each failure kind.
pub open spec fn spec_default_detail(t: ProcessingErrorType) -> Seq<char> {
    match t {
        ProcessingErrorType::UnsupportingExtension =>
            "Current image extension is not supported or not an image"@,
        ProcessingErrorType::NotFound => "Current image is not found"@,
        ProcessingErrorType::FileApiError => "File not found"@,
        ProcessingErrorType::ProcessedImagesLimit =>
            "Limit exceed. No any new image formats allowed"@,
        ProcessingErrorType::InvalidSize => "Invalid size"@,
    }
}

impl ProcessingErrorType {
    /// The stock wording of this failure kind.
    pub fn default_detail(&self) -> (r: String)
        ensures
            r@ == spec_default_detail(*self),
    {
        match self {
            ProcessingErrorType::UnsupportingExtension => String::from_str(
                "Current image extension is not supported or not an image"),
            ProcessingErrorType::NotFound => String::from_str("Current image is not found"),
            ProcessingErrorType::FileApiError => String::from_str("File not found"),
            ProcessingErrorType::ProcessedImagesLimit => String::from_str(
                "Limit exceed. No any new image formats allowed"),
            ProcessingErrorType::InvalidSize => String::from_str("Invalid size"),
        }
    }
}

/// A failure: its kind and a human-readable detail.
#[derive(Debug)]
pub struct ProcessingError {
    pub err_type: ProcessingErrorType,
    pub detail: String,
}

impl ProcessingError {
    /// Builds an error, falling back to the kind's stock wording.
    pub fn new(err_type: ProcessingErrorType, detail: Option<String>) -> (r: Self)
        ensures
            r.err_type == err_type,
            detail matches Some(d) ==> r.detail@ == d@,
            detail is None ==> r.detail@ == spec_default_detail(err_type),
    {
        let detail = match detail {
            Option::Some(d) => d,
            Option::None => err_type.default_detail(),
        };
        ProcessingError { err_type, detail }
    }
}

/// The derivative cache behind the processor: exact in memory, or best
/// effort on disk.
pub enum ProcessedImagesCache {
    Memory(MemoryProcessedImageCache),
    Persistent(PersistentProcessedImageCache),
}

impl ProcessedImagesCache {
    /// Internal well-formedness.
    pub open spec fn inv(&self) -> bool {
        match self {
            ProcessedImagesCache::Memory(m) => m.inv(),
            ProcessedImagesCache::Persistent(p) => p.max_options_per_image >= 1,
        }
    }

    /// The admission policy in force.
    pub open spec fn spec_policy(&self) -> ImageOptionsOverflowPolicy {
        match self {
            ProcessedImagesCache::Memory(m) => m.overflow_policy,
            ProcessedImagesCache::Persistent(p) => p.overflow_policy,
        }
    }

    /// Looks a variant up in whichever tier backs the cache.
    pub fn get(&self, image_id: &ImageId, params: &ProcessingParams) -> (r: Option<ImageContainer>)
        requires
            self.inv(),
        ensures
            self matches ProcessedImagesCache::Memory(m) ==> ({
                &&& (r is Some) == m.has_variant(image_id@, *params)
                &&& (r matches Some(c) ==> c@ == m.variant_at(image_id@, *params))
            }),
    {
        match self {
            ProcessedImagesCache::Memory(m) => m.get(image_id, params),
            ProcessedImagesCache::Persistent(p) => p.get(image_id, params),
        }
    }

    /// Inserts a variant under the admission policy.
    pub fn set(&mut self, image_id: ImageId, params: ProcessingParams, image: ImageContainer)
        -> (r: Result<(), crate::processed_image_cache::ProcessingError>)
        requires
            old(self).inv(),
        ensures
            final(self).inv(),
            final(self).spec_policy() == old(self).spec_policy(),
            ((*final(self)) is Memory) == ((*old(self)) is Memory),
            r is Err ==> old(self).spec_policy() == ImageOptionsOverflowPolicy::Restrict,
            (*old(self)) matches ProcessedImagesCache::Memory(m0)
                ==> ((*final(self)) matches ProcessedImagesCache::Memory(m1)
                    && MemoryProcessedImageCache::set_post(m0, m1, image_id@, params, image@,
                        r is Ok)),
            (*old(self)) is Persistent ==> *final(self) == *old(self),
    {
        match self {
            ProcessedImagesCache::Memory(m) => m.set(image_id, params, image),
            ProcessedImagesCache::Persistent(p) => p.set(&image_id, &params, &image),
        }
    }

    /// Evicts every variant of an identifier.
    pub fn remove(&mut self, image_id: &ImageId)
        requires
            old(self).inv(),
        ensures
            final(self).inv(),
            final(self).spec_policy() == old(self).spec_policy(),
            ((*final(self)) is Memory) == ((*old(self)) is Memory),
            (*old(self)) matches ProcessedImagesCache::Memory(m0)
                ==> ((*final(self)) matches ProcessedImagesCache::Memory(m1)
                    && MemoryProcessedImageCache::remove_post(m0, m1, image_id@)),
            (*old(self)) is Persistent ==> *final(self) == *old(self),
    {
        match self {
            ProcessedImagesCache::Memory(m) => m.remove(image_id.clone()),
            ProcessedImagesCache::Persistent(p) => p.remove(image_id),
        }
    }
}

/// What `get` decided: a finished answer, or that the original must be
/// fetched from the upstream file API and handed to `resolve_upstream`.
pub enum GetOutcome {
    Resolved(Result<ImageContainer, ProcessingError>),
    NeedsUpstream,
}

/// A request is acceptable when its quality lies in the allowed band and
/// each requested dimension is positive and within the configured maximum.
pub open spec fn params_valid(p: ProcessingParams, max_w: u32, max_h: u32) -> bool {
    &&& quality_ok(p.quality)
    &&& (p.width matches Some(v) ==> 1 <= v <= max_w)
    &&& (p.height matches Some(v) ==> 1 <= v <= max_h)
}

/// The output format of a request: the requested one, or the configured
/// default.
pub open spec fn spec_output_extension(p: ProcessingParams, default_extension: Extensions)
    -> Extensions {
    match p.extension {
        Option::Some(e) => e,
        Option::None => default_extension,
    }
}

/// What holds of a finished processing step: a success carries an image in
/// the requested output format, freshly admitted to an exactly-modeled
/// cache; a failure is either input bytes no codec accepted or the variant
/// budget under `Restrict`.
pub open spec fn process_result_post(pre: ProcessedImagesCache, post: ProcessedImagesCache,
    id: Seq<char>, p: ProcessingParams, res: Result<ImageContainer, ProcessingError>,
    ext: Extensions) -> bool {
    &&& (res matches Ok(img) ==> {
        &&& img@.extension == ext
        &&& (pre matches ProcessedImagesCache::Memory(m1)
            ==> (post matches ProcessedImagesCache::Memory(m2) && m2.has_variant(id, p)
                && (!m1.has_variant(id, p) ==> m2.variant_at(id, p) == img@)
                && (m1.has_variant(id, p) ==> m2.variant_at(id, p) == m1.variant_at(id, p))))
    })
    &&& (res matches Err(e) ==> {
        &&& (e.err_type == ProcessingErrorType::UnsupportingExtension
            || e.err_type == ProcessingErrorType::ProcessedImagesLimit)
        &&& (e.err_type == ProcessingErrorType::ProcessedImagesLimit
            ==> pre.spec_policy() == ImageOptionsOverflowPolicy::Restrict)
        &&& (e.err_type == ProcessingErrorType::ProcessedImagesLimit
            ==> (pre matches ProcessedImagesCache::Memory(m1)
                ==> !m1.has_variant(id, p)
                    && m1.variant_count(id) >= m1.max_options_per_image
                    && m1.overflow_policy == ImageOptionsOverflowPolicy::Restrict))
    })
    &&& (pre matches ProcessedImagesCache::Memory(m1) ==> ((!m1.has_variant(id, p)
        && m1.variant_count(id) >= m1.max_options_per_image
        && m1.overflow_policy == ImageOptionsOverflowPolicy::Restrict) ==> !(res is Ok)))
}

/// The processor: one original store, one derivative cache, and the
/// immutable request configuration.
pub struct Processor<S: Storage> {
    pub storage: S,
    pub cache: ProcessedImagesCache,
    pub hints: FilenameHints,
    pub upstream_enabled: bool,
    pub default_extension: Extensions,
    pub max_width: u32,
    pub max_height: u32,
}

impl<S: Storage> Processor<S> {
    /// Internal well-formedness.
    pub open spec fn inv(&self) -> bool {
        &&& self.storage.inv()
        &&& self.cache.inv()
        &&& self.hints.inv()
        &&& self.max_width >= 1
        &&& self.max_height >= 1
    }

    /// The request configuration is never changed by a request.
    pub open spec fn config_unchanged(pre: Self, post: Self) -> bool {
        &&& post.upstream_enabled == pre.upstream_enabled
        &&& post.default_extension == pre.default_extension
        &&& post.max_width == pre.max_width
        &&& post.max_height == pre.max_height
    }

    /// Assembles a processor.
    pub fn new(storage: S, cache: ProcessedImagesCache, upstream_enabled: bool,
        default_extension: Extensions, max_width: u32, max_height: u32) -> (r: Self)
        requires
            storage.inv(),
            cache.inv(),
            max_width >= 1,
            max_height >= 1,
        ensures
            r.inv(),
            r.storage == storage,
            r.cache == cache,
            r.upstream_enabled == upstream_enabled,
            r.default_extension == default_extension,
            r.max_width == max_width,
            r.max_height == max_height,
            forall|id: Seq<char>| r.hints.hint_of(id) is None,
    {
        Processor {
            storage,
            cache,
            hints: FilenameHints::new(),
            upstream_enabled,
            default_extension,
            max_width,
            max_height,
        }
    }

    /// Validates a request against the configured bounds.
    pub fn validate(&self, params: &ProcessingParams) -> (r: bool)
        ensures
            r == params_valid(*params, self.max_width, self.max_height),
    {
        let quality_fine = match params.quality {
            Option::Some(q) => 10 <= q && q <= 100,
            Option::None => true,
        };
        let width_fine = match params.width {
            Option::Some(v) => 1 <= v && v <= self.max_width,
            Option::None => true,
        };
        let height_fine = match params.height {
            Option::Some(v) => 1 <= v && v <= self.max_height,
            Option::None => true,
        };
        quality_fine && width_fine && height_fine
    }

    /// Builds the response container from encoded bytes and admits it to
    /// the derivative cache: on an exactly-modeled cache the admission
    /// outcome is pinned down completely, so success is owed whenever the
    /// admission algorithm admits.
    pub fn cache_processed(&mut self, image_id: &ImageId, params: &ProcessingParams,
        encoded: Vec<u8>, filename: Option<String>, extension: Extensions)
        -> (r: Result<ImageContainer, ProcessingError>)
        requires
            old(self).inv(),
        ensures
            final(self).inv(),
            Self::config_unchanged(*old(self), *final(self)),
            final(self).storage == old(self).storage,
            final(self).hints == old(self).hints,
            r matches Ok(img) ==> img@.data == encoded@ && img@.extension == extension
                && img@.filename == (match filename {
                    Option::None => Option::<Seq<char>>::None,
                    Option::Some(f) => Option::Some(f@),
                }),
            r matches Err(e) ==> (e.err_type == ProcessingErrorType::ProcessedImagesLimit
                && e.detail@ == spec_default_detail(ProcessingErrorType::ProcessedImagesLimit)
                && old(self).cache.spec_policy() == ImageOptionsOverflowPolicy::Restrict),
            old(self).cache matches ProcessedImagesCache::Memory(m0)
                ==> ((r is Err) == (!m0.has_variant(image_id@, *params)
                    && m0.variant_count(image_id@) >= m0.max_options_per_image
                    && m0.overflow_policy == ImageOptionsOverflowPolicy::Restrict)),
            old(self).cache matches ProcessedImagesCache::Memory(m0)
                ==> (final(self).cache matches ProcessedImagesCache::Memory(m1)
                    && MemoryProcessedImageCache::set_post(m0, m1, image_id@, *params,
                        (ImageContainerView {
                            data: encoded@,
                            filename: match filename {
                                Option::None => Option::None,
                                Option::Some(f) => Option::Some(f@),
                            },
                            extension: extension,
                        }), r is Ok)),
            process_result_post(old(self).cache, final(self).cache, image_id@, *params, r,
                extension),
    {
        let result = ImageContainer::new(Box::new(encoded), filename, extension);
        let stored = result.clone();
        match self.cache.set(image_id.clone(), *params, stored) {
            Result::Ok(()) => Result::Ok(result),
            Result::Err(_) => Result::Err(ProcessingError::new(
                ProcessingErrorType::ProcessedImagesLimit, Option::None)),
        }
    }

    /// Decodes, resizes per the computed plan, encodes, and admits the
    /// result to the derivative cache under the identifier's recorded
    /// download name. Bytes that sniff wrong or that no codec decodes end as
    /// `UnsupportingExtension`, as do pixels no encoder accepts; a full
    /// variant budget under `Restrict` ends as `ProcessedImagesLimit`, and
    /// only then.
    pub fn _process_image(&mut self, image_id: &ImageId, original_image: &Vec<u8>,
        params: &ProcessingParams) -> (r: Result<ImageContainer, ProcessingError>)
        requires
            old(self).inv(),
            params_valid(*params, old(self).max_width, old(self).max_height),
        ensures
            final(self).inv(),
            Self::config_unchanged(*old(self), *final(self)),
            final(self).storage == old(self).storage,
            final(self).hints == old(self).hints,
            spec_sniff(original_image@) is None ==> (r matches Err(e)
                && e.err_type == ProcessingErrorType::UnsupportingExtension
                && final(self).cache == old(self).cache),
            spec_sniff(original_image@) is Some && !(decode_ok(original_image@)
                && decoded_width(original_image@) >= 1 && decoded_height(original_image@) >= 1)
                ==> (r matches Err(e)
                    && e.err_type == ProcessingErrorType::UnsupportingExtension
                    && final(self).cache == old(self).cache),
            r matches Ok(img) ==> img@.filename == old(self).hints.hint_of(image_id@),
            process_result_post(old(self).cache, final(self).cache, image_id@, *params, r,
                spec_output_extension(*params, old(self).default_extension)),
    {
        let sniffed = sniff_format(original_image);
        if sniffed.is_none() {
            return Result::Err(ProcessingError::new(
                ProcessingErrorType::UnsupportingExtension, Option::None));
        }
        let pixels = match decode_pixels(original_image) {
            Option::Some(p) => p,
            Option::None => {
                return Result::Err(ProcessingError::new(
                    ProcessingErrorType::UnsupportingExtension, Option::None));
            },
        };
        let plan = plan_resize(pixels.width(), pixels.height(), params.width, params.height,
            match params.ratio_policy {
                Option::Some(rp) => rp,
                Option::None => crate::image_processing::RatioPolicy::CropToCenter,
            });
        let resized = apply_plan(&pixels, &plan);
        let extension = match params.extension {
            Option::Some(e) => e,
            Option::None => self.default_extension,
        };
        let encoded = match encode_pixels(&resized, extension) {
            Option::Some(b) => b,
            Option::None => {
                return Result::Err(ProcessingError::new(
                    ProcessingErrorType::UnsupportingExtension, Option::None));
            },
        };
        let hint = self.hints.find(image_id);
        self.cache_processed(image_id, params, encoded, hint, extension)
    }

    /// Serves a request from the caches: a derivative-cache hit is returned
    /// as it is; otherwise a stored original that still looks like an image
    /// is processed; otherwise the caller is directed upstream, or told the
    /// image does not exist when no upstream is configured. A stored
    /// original that no longer sniffs as an image is treated as corrupted
    /// cache contents: it reads as a miss.
    pub fn get(&mut self, image_id: &ImageId, params: &ProcessingParams) -> (r: GetOutcome)
        requires
            old(self).inv(),
        ensures
            final(self).inv(),
            Self::config_unchanged(*old(self), *final(self)),
            final(self).storage == old(self).storage,
            final(self).hints == old(self).hints,
            // invalid requests are rejected outright, and only they are
            (r matches GetOutcome::Resolved(res) && res matches Err(e)
                && e.err_type == ProcessingErrorType::InvalidSize)
                <==> !params_valid(*params, old(self).max_width, old(self).max_height),
            !params_valid(*params, old(self).max_width, old(self).max_height)
                ==> final(self).cache == old(self).cache,
            // a cache hit answers with the cached derivative, changing nothing
            old(self).cache matches ProcessedImagesCache::Memory(m0)
                ==> (params_valid(*params, old(self).max_width, old(self).max_height)
                    && m0.has_variant(image_id@, *params)
                    ==> (final(self).cache == old(self).cache
                        && (r matches GetOutcome::Resolved(res)
                            && (res matches Ok(img)
                                && img@ == m0.variant_at(image_id@, *params))))),
            // a full miss goes upstream, or reports absence
            old(self).cache matches ProcessedImagesCache::Memory(m0)
                ==> (params_valid(*params, old(self).max_width, old(self).max_height)
                    && !m0.has_variant(image_id@, *params)
                    && old(self).storage.modeled()
                    && (!old(self).storage.stored(image_id@)
                        || spec_sniff(old(self).storage.stored_at(image_id@)) is None)
                    ==> (final(self).cache == old(self).cache
                        && (old(self).upstream_enabled ==> r is NeedsUpstream)
                        && (!old(self).upstream_enabled
                            ==> (r matches GetOutcome::Resolved(res)
                                && (res matches Err(e)
                                    && e.err_type == ProcessingErrorType::NotFound))))),
            // a stored, well-formed original is processed on the spot
            old(self).cache matches ProcessedImagesCache::Memory(m0)
                ==> (params_valid(*params, old(self).max_width, old(self).max_height)
                    && !m0.has_variant(image_id@, *params)
                    && old(self).storage.modeled()
                    && old(self).storage.stored(image_id@)
                    && spec_sniff(old(self).storage.stored_at(image_id@)) is Some
                    ==> (r matches GetOutcome::Resolved(res)
                        && process_result_post(old(self).cache, final(self).cache, image_id@,
                            *params, res,
                            spec_output_extension(*params, old(self).default_extension)))),
    {
        if !self.validate(params) {
            return GetOutcome::Resolved(Result::Err(ProcessingError::new(
                ProcessingErrorType::InvalidSize,
                Option::Some(String::from_str("Quality or size out of bounds")))));
        }
        let cached = self.cache.get(image_id, params);
        if let Option::Some(img) = cached {
            return GetOutcome::Resolved(Result::Ok(img));
        }
        let original = self.storage.get(image_id);
        if let Option::Some(bytes) = original {
            let sniffed = sniff_format(&bytes);
            if sniffed.is_some() {
                let res = self._process_image(image_id, &bytes, params);
                return GetOutcome::Resolved(res);
            }
            // the stored original is corrupted: fall through as a miss
        }
        if self.upstream_enabled {
            GetOutcome::NeedsUpstream
        } else {
            GetOutcome::Resolved(Result::Err(ProcessingError::new(
                ProcessingErrorType::NotFound, Option::None)))
        }
    }

    /// Finishes a request after the caller fetched upstream: a 404 becomes
    /// `NotFound`, every other failure `FileApiError`; fetched bytes
    /// populate the original store first and are then processed like a
    /// stored original.
    pub fn resolve_upstream(&mut self, image_id: &ImageId, params: &ProcessingParams,
        fetched: Result<Vec<u8>, FileApiError>)
        -> (r: Result<ImageContainer, ProcessingError>)
        requires
            old(self).inv(),
            params_valid(*params, old(self).max_width, old(self).max_height),
        ensures
            final(self).inv(),
            Self::config_unchanged(*old(self), *final(self)),
            final(self).storage.modeled() == old(self).storage.modeled(),
            final(self).hints == old(self).hints,
            fetched matches Err(fe) ==> (fe.http_error_code == Some(404u32)
                ==> (r matches Err(e) && e.err_type == ProcessingErrorType::NotFound
                    && e.detail@ == fe.reason@
                    && *final(self) == *old(self))),
            fetched matches Err(fe) ==> (fe.http_error_code != Some(404u32)
                ==> (r matches Err(e) && e.err_type == ProcessingErrorType::FileApiError
                    && e.detail@ == crate::proxying_images::spec_upstream_detail(fe.reason@,
                        fe.http_error_code)
                    && *final(self) == *old(self))),
            fetched matches Ok(bytes) ==> {
                &&& (old(self).storage.modeled() ==> final(self).storage.stored(image_id@)
                    && final(self).storage.stored_at(image_id@) == bytes@)
                &&& (spec_sniff(bytes@) is None ==> (r matches Err(e)
                    && e.err_type == ProcessingErrorType::UnsupportingExtension))
                &&& process_result_post(old(self).cache, final(self).cache, image_id@, *params,
                    r, spec_output_extension(*params, old(self).default_extension))
            },
    {
        match fetched {
            Result::Err(err) => {
                if err.is_not_found() {
                    Result::Err(ProcessingError::new(ProcessingErrorType::NotFound,
                        Option::Some(err.reason)))
                } else {
                    let detail = crate::proxying_images::upstream_error_detail(&err);
                    Result::Err(ProcessingError::new(ProcessingErrorType::FileApiError,
                        Option::Some(detail)))
                }
            },
            Result::Ok(bytes) => {
                self.storage.set(image_id.clone(), &bytes);
                self._process_image(image_id, &bytes, params)
            },
        }
    }

    /// Preloads an original: bytes that sniff as an image enter the original
    /// store under the identifier, the download name is recorded, and every
    /// cached derivative of the identifier is invalidated; anything else is
    /// rejected untouched.
    pub fn prefetch(&mut self, image_id: &ImageId, filename_hint: String, data: Vec<u8>)
        -> (r: Result<(), ProcessingError>)
        requires
            old(self).inv(),
        ensures
            final(self).inv(),
            Self::config_unchanged(*old(self), *final(self)),
            final(self).storage.modeled() == old(self).storage.modeled(),
            (r is Ok) == (spec_sniff(data@) is Some),
            r matches Err(e) ==> (e.err_type == ProcessingErrorType::UnsupportingExtension
                && *final(self) == *old(self)),
            r is Ok ==> {
                &&& (old(self).storage.modeled() ==> final(self).storage.stored(image_id@)
                    && final(self).storage.stored_at(image_id@) == data@)
                &&& final(self).hints.hint_of(image_id@) == Option::Some(filename_hint@)
                &&& (forall|id2: Seq<char>| id2 != image_id@
                    ==> #[trigger] final(self).hints.hint_of(id2) == old(self).hints.hint_of(id2))
                &&& (old(self).cache matches ProcessedImagesCache::Memory(m0)
                    ==> (final(self).cache matches ProcessedImagesCache::Memory(m1)
                        && (forall|q: ProcessingParams| !m1.has_variant(image_id@, q))
                        && MemoryProcessedImageCache::other_ids_unchanged(m0, m1, image_id@)))
            },
    {
        let sniffed = sniff_format(&data);
        if sniffed.is_none() {
            return Result::Err(ProcessingError::new(
                ProcessingErrorType::UnsupportingExtension, Option::None));
        }
        self.storage.set(image_id.clone(), &data);
        self.cache.remove(image_id);
        self.hints.set_hint(image_id.clone(), filename_hint);
        Result::Ok(())
    }
}

} // verus!
