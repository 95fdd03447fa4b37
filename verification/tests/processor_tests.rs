use imgserve::errors::{authorize_preload, get_error_status, get_error_type, get_error_type_name};
use imgserve::image_processing::{ProcessingParams, RatioPolicy};
use imgserve::image_types::Extensions;
use imgserve::processed_image_cache::{ImageOptionsOverflowPolicy, MemoryProcessedImageCache};
use imgserve::processing::{GetOutcome, ProcessedImagesCache, ProcessingError, ProcessingErrorType, Processor};
use imgserve::proxying_images::FileApiError;
use imgserve::storage::{CachingStorage, Storage};

fn png_bytes(w: u32, h: u32, shade: u8) -> Vec<u8> {
    let img = image::RgbaImage::from_pixel(w, h, image::Rgba([shade, shade, shade, 255]));
    let mut buf = std::io::Cursor::new(Vec::new());
    image::DynamicImage::ImageRgba8(img)
        .write_to(&mut buf, image::ImageFormat::Png)
        .unwrap();
    buf.into_inner()
}

fn processor(max_options: usize, policy: ImageOptionsOverflowPolicy, upstream: bool)
    -> Processor<CachingStorage> {
    let storage = CachingStorage::new(64);
    let cache = ProcessedImagesCache::Memory(MemoryProcessedImageCache::new(1024, max_options,
        policy));
    Processor::new(storage, cache, upstream, Extensions::Webp, 1920, 1080)
}

fn q(width: u32, height: u32) -> ProcessingParams {
    ProcessingParams {
        width: Some(width),
        height: Some(height),
        extension: Some(Extensions::Webp),
        quality: Some(82),
        ratio_policy: Some(RatioPolicy::CropToCenter),
    }
}

fn resolved(outcome: GetOutcome) -> Result<imgserve::types::ImageContainer, ProcessingError> {
    match outcome {
        GetOutcome::Resolved(res) => res,
        GetOutcome::NeedsUpstream => panic!("expected a finished answer"),
    }
}

#[test]
fn preload_then_fetch_yields_sized_webp() {
    let mut proc = processor(32, ImageOptionsOverflowPolicy::Rewrite, false);
    let id = String::from("cat");
    assert!(proc.prefetch(&id, String::from("cat.png"), png_bytes(200, 160, 80)).is_ok());
    let img = resolved(proc.get(&id, &q(100, 100))).expect("stored original processes");
    assert_eq!(img.extension, Extensions::Webp);
    let decoded = image::load_from_memory(&img.data).expect("the answer is a webp image");
    assert_eq!(image::GenericImageView::dimensions(&decoded), (100, 100));
    // a second identical request is a cache hit with the same bytes
    let again = resolved(proc.get(&id, &q(100, 100))).unwrap();
    assert_eq!(*again.data, *img.data);
}

#[test]
fn preload_rejects_bytes_that_are_no_image() {
    let mut proc = processor(32, ImageOptionsOverflowPolicy::Rewrite, false);
    let err = proc.prefetch(&String::from("cat"), String::from("cat"), b"this is not an image".to_vec()).unwrap_err();
    assert_eq!(err.err_type, ProcessingErrorType::UnsupportingExtension);
    assert_eq!(get_error_status(&err.err_type), 400);
}

#[test]
fn mismatched_api_key_is_refused() {
    assert!(!authorize_preload(&String::from("wrong"), &String::from("server-key")));
    assert!(!authorize_preload(&String::new(), &String::from("server-key")));
    assert!(authorize_preload(&String::from("k1"), &String::from("k1")));
    assert!(authorize_preload(&String::new(), &String::new()));
}

#[test]
fn miss_with_upstream_disabled_is_not_found() {
    let mut proc = processor(32, ImageOptionsOverflowPolicy::Rewrite, false);
    let err = resolved(proc.get(&String::from("absent"), &q(50, 50))).unwrap_err();
    assert_eq!(err.err_type, ProcessingErrorType::NotFound);
    assert_eq!(get_error_status(&err.err_type), 404);
    assert_eq!(get_error_type_name(&get_error_type(&err.err_type)), "not_found");
}

#[test]
fn miss_with_upstream_enabled_directs_to_fetch() {
    let mut proc = processor(32, ImageOptionsOverflowPolicy::Rewrite, true);
    match proc.get(&String::from("absent"), &q(50, 50)) {
        GetOutcome::NeedsUpstream => {},
        GetOutcome::Resolved(_) => panic!("a miss with an upstream must direct to it"),
    }
}

#[test]
fn upstream_404_maps_to_not_found_and_other_errors_to_file_api_error() {
    let mut proc = processor(32, ImageOptionsOverflowPolicy::Rewrite, true);
    let id = String::from("absent");
    let e404 = proc.resolve_upstream(&id, &q(50, 50),
        Err(FileApiError::new(String::from("Got error from file api"), Some(404)))).unwrap_err();
    assert_eq!(e404.err_type, ProcessingErrorType::NotFound);
    let e500 = proc.resolve_upstream(&id, &q(50, 50),
        Err(FileApiError::new(String::from("Got error from file api"), Some(500)))).unwrap_err();
    assert_eq!(e500.err_type, ProcessingErrorType::FileApiError);
    assert_eq!(e500.detail, "err: Got error from file api; status: 500");
    let etransport = proc.resolve_upstream(&id, &q(50, 50),
        Err(FileApiError::new(String::from("Failed to request image from base api"), None)))
        .unwrap_err();
    assert_eq!(etransport.err_type, ProcessingErrorType::FileApiError);
    assert_eq!(etransport.detail, "err: Failed to request image from base api; status: None");
}

#[test]
fn upstream_bytes_populate_the_store_and_process() {
    let mut proc = processor(32, ImageOptionsOverflowPolicy::Rewrite, true);
    let id = String::from("remote");
    let img = proc.resolve_upstream(&id, &q(60, 40), Ok(png_bytes(120, 80, 30)))
        .expect("fetched bytes process");
    let decoded = image::load_from_memory(&img.data).unwrap();
    assert_eq!(image::GenericImageView::dimensions(&decoded), (60, 40));
    // the original was populated: the next request needs no upstream
    let again = resolved(proc.get(&id, &q(30, 20))).unwrap();
    let decoded2 = image::load_from_memory(&again.data).unwrap();
    assert_eq!(image::GenericImageView::dimensions(&decoded2), (30, 20));
}

#[test]
fn invalid_quality_and_oversize_are_rejected() {
    let mut proc = processor(32, ImageOptionsOverflowPolicy::Rewrite, true);
    let mut bad_quality = q(50, 50);
    bad_quality.quality = Some(5);
    let err = resolved(proc.get(&String::from("cat"), &bad_quality)).unwrap_err();
    assert_eq!(err.err_type, ProcessingErrorType::InvalidSize);
    let too_wide = q(5000, 50);
    let err2 = resolved(proc.get(&String::from("cat"), &too_wide)).unwrap_err();
    assert_eq!(err2.err_type, ProcessingErrorType::InvalidSize);
    assert_eq!(get_error_type_name(&get_error_type(&err2.err_type)), "invalid_size");
}

#[test]
fn restrict_admission_caps_distinct_param_sets() {
    let mut proc = processor(2, ImageOptionsOverflowPolicy::Restrict, false);
    let id = String::from("x");
    assert!(proc.prefetch(&id, String::from("x"), png_bytes(64, 64, 10)).is_ok());
    assert!(resolved(proc.get(&id, &q(10, 10))).is_ok());
    assert!(resolved(proc.get(&id, &q(20, 20))).is_ok());
    let err = resolved(proc.get(&id, &q(30, 30))).unwrap_err();
    assert_eq!(err.err_type, ProcessingErrorType::ProcessedImagesLimit);
    assert_eq!(get_error_status(&err.err_type), 400);
    assert_eq!(get_error_type_name(&get_error_type(&err.err_type)), "processed_images_limit");
    // the earlier variants still answer
    assert!(resolved(proc.get(&id, &q(10, 10))).is_ok());
}

#[test]
fn rewrite_admission_evicts_the_greatest_and_reprocesses() {
    let mut proc = processor(2, ImageOptionsOverflowPolicy::Rewrite, false);
    let id = String::from("x");
    assert!(proc.prefetch(&id, String::from("x"), png_bytes(64, 64, 10)).is_ok());
    assert!(resolved(proc.get(&id, &q(10, 10))).is_ok());
    assert!(resolved(proc.get(&id, &q(20, 20))).is_ok());
    // the third distinct parameter set is admitted under Rewrite
    assert!(resolved(proc.get(&id, &q(5, 5))).is_ok());
    // the greatest of the prior sets was evicted; the request still answers
    // correctly by processing anew
    let again = resolved(proc.get(&id, &q(20, 20))).expect("re-processing still answers");
    let decoded = image::load_from_memory(&again.data).unwrap();
    assert_eq!(image::GenericImageView::dimensions(&decoded), (20, 20));
}

#[test]
fn prefetch_invalidates_cached_derivatives() {
    let mut proc = processor(32, ImageOptionsOverflowPolicy::Rewrite, false);
    let id = String::from("y");
    assert!(proc.prefetch(&id, String::from("y"), png_bytes(64, 64, 0)).is_ok());
    let first = resolved(proc.get(&id, &q(16, 16))).unwrap();
    // preload different bytes for the same identifier
    assert!(proc.prefetch(&id, String::from("y"), png_bytes(64, 64, 200)).is_ok());
    let second = resolved(proc.get(&id, &q(16, 16))).unwrap();
    assert_ne!(*first.data, *second.data,
        "the derivative must come from the new original, not the stale cache");
}

#[test]
fn corrupted_stored_original_reads_as_miss() {
    let mut proc = processor(32, ImageOptionsOverflowPolicy::Rewrite, false);
    let id = String::from("z");
    // place broken bytes directly in the store, bypassing prefetch
    proc.storage.set(id.clone(), &b"broken".to_vec());
    let err = resolved(proc.get(&id, &q(10, 10))).unwrap_err();
    assert_eq!(err.err_type, ProcessingErrorType::NotFound);
}

#[test]
fn default_extension_applies_when_none_requested() {
    let mut proc = processor(32, ImageOptionsOverflowPolicy::Rewrite, false);
    let id = String::from("d");
    assert!(proc.prefetch(&id, String::from("d.webp"), png_bytes(32, 32, 50)).is_ok());
    let mut request = q(8, 8);
    request.extension = None;
    let img = resolved(proc.get(&id, &request)).unwrap();
    assert_eq!(img.extension, Extensions::Webp);
    let mut png_request = q(8, 8);
    png_request.extension = Some(Extensions::PNG);
    let img2 = resolved(proc.get(&id, &png_request)).unwrap();
    assert_eq!(img2.extension, Extensions::PNG);
    assert_eq!(image::guess_format(&img2.data).unwrap(), image::ImageFormat::Png);
}

#[test]
fn stretch_policy_resizes_without_cropping() {
    let mut proc = processor(32, ImageOptionsOverflowPolicy::Rewrite, false);
    let id = String::from("s");
    assert!(proc.prefetch(&id, String::from("s"), png_bytes(100, 50, 90)).is_ok());
    let mut request = q(30, 60);
    request.ratio_policy = Some(RatioPolicy::Resize);
    let img = resolved(proc.get(&id, &request)).unwrap();
    let decoded = image::load_from_memory(&img.data).unwrap();
    assert_eq!(image::GenericImageView::dimensions(&decoded), (30, 60));
}

#[test]
fn preload_hint_names_the_download() {
    let mut proc = processor(32, ImageOptionsOverflowPolicy::Rewrite, false);
    let id = String::from("named");
    assert!(proc.prefetch(&id, String::from("kitty.png"), png_bytes(32, 32, 10)).is_ok());
    let img = resolved(proc.get(&id, &q(8, 8))).unwrap();
    assert_eq!(img.filename.as_deref(), Some("kitty.png"));
    // a later preload replaces the recorded name
    assert!(proc.prefetch(&id, String::from("cat2.png"), png_bytes(32, 32, 20)).is_ok());
    let img2 = resolved(proc.get(&id, &q(8, 8))).unwrap();
    assert_eq!(img2.filename.as_deref(), Some("cat2.png"));
}

#[test]
fn error_details_fall_back_to_stock_wording() {
    let e = ProcessingError::new(ProcessingErrorType::NotFound, None);
    assert_eq!(e.detail, "Current image is not found");
    let e2 = ProcessingError::new(ProcessingErrorType::FileApiError,
        Some(String::from("err: boom; status: 503")));
    assert_eq!(e2.detail, "err: boom; status: 503");
    assert_eq!(ProcessingErrorType::UnsupportingExtension.default_detail(),
        "Current image extension is not supported or not an image");
}
