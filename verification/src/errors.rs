//! The error surface of the HTTP handlers: response error kinds, their wire
//! names, the status codes they map to, and the preload authorization check.

use vstd::prelude::*;
use crate::processing::ProcessingErrorType;

verus! {

/// Error kinds of the image-serving route, as exposed on the wire.
#[derive(Debug, PartialEq, Eq, Structural, Clone, Copy)]
pub enum GetImageErrorType {
    InvalidSize,
    UnsupportingExtension,
    NotFound,
    FileApiError,
    ProcessedImagesLimit,
}

/// Error kinds of the preload route, as exposed on the wire.
#[derive(Debug, PartialEq, Eq, Structural, Clone, Copy)]
pub enum PreloadImageErrorType {
    InvalidBody,
    Unauthorized,
    UnsupportingExtension,
}

/// The JSON error body: a detail line and an optional machine-readable kind.
#[derive(Debug)]
pub struct ErrorResponse<T> {
    pub detail: String,
    pub error_type: Option<T>,
}

/// How a processing failure is exposed on the image-serving route.
pub open spec fn spec_get_error_type(t: ProcessingErrorType) -> GetImageErrorType {
    match t {
        ProcessingErrorType::UnsupportingExtension => GetImageErrorType::UnsupportingExtension,
        ProcessingErrorType::NotFound => GetImageErrorType::NotFound,
        ProcessingErrorType::FileApiError => GetImageErrorType::FileApiError,
        ProcessingErrorType::ProcessedImagesLimit => GetImageErrorType::ProcessedImagesLimit,
        ProcessingErrorType::InvalidSize => GetImageErrorType::InvalidSize,
    }
}

/// Maps a processing failure to its wire kind.
pub fn get_error_type(t: &ProcessingErrorType) -> (r: GetImageErrorType)
    ensures
        r == spec_get_error_type(*t),
{
    match t {
        ProcessingErrorType::UnsupportingExtension => GetImageErrorType::UnsupportingExtension,
        ProcessingErrorType::NotFound => GetImageErrorType::NotFound,
        ProcessingErrorType::FileApiError => GetImageErrorType::FileApiError,
        ProcessingErrorType::ProcessedImagesLimit => GetImageErrorType::ProcessedImagesLimit,
        ProcessingErrorType::InvalidSize => GetImageErrorType::InvalidSize,
    }
}

/// The status code of a failed image request: an absent image is 404,
/// everything else a bad request.
pub fn get_error_status(t: &ProcessingErrorType) -> (r: u16)
    ensures
        *t == ProcessingErrorType::NotFound ==> r == 404,
        *t != ProcessingErrorType::NotFound ==> r == 400,
{
    match t {
        ProcessingErrorType::NotFound => 404,
        _ => 400,
    }
}

/// The wire name of an image-route error kind, as serialized in the JSON
/// body's `error_type` field.
pub fn get_error_type_name(t: &GetImageErrorType) -> (r: &'static str)
    ensures
        *t == GetImageErrorType::InvalidSize ==> r@ == "invalid_size"@,
        *t == GetImageErrorType::UnsupportingExtension ==> r@ == "unsupporting_extension"@,
        *t == GetImageErrorType::NotFound ==> r@ == "not_found"@,
        *t == GetImageErrorType::FileApiError ==> r@ == "file_api_error"@,
        *t == GetImageErrorType::ProcessedImagesLimit ==> r@ == "processed_images_limit"@,
{
    match t {
        GetImageErrorType::InvalidSize => "invalid_size",
        GetImageErrorType::UnsupportingExtension => "unsupporting_extension",
        GetImageErrorType::NotFound => "not_found",
        GetImageErrorType::FileApiError => "file_api_error",
        GetImageErrorType::ProcessedImagesLimit => "processed_images_limit",
    }
}

/// The wire name of a preload-route error kind.
pub fn preload_error_type_name(t: &PreloadImageErrorType) -> (r: &'static str)
    ensures
        *t == PreloadImageErrorType::InvalidBody ==> r@ == "invalid_body"@,
        *t == PreloadImageErrorType::Unauthorized ==> r@ == "unauthorized"@,
        *t == PreloadImageErrorType::UnsupportingExtension ==> r@ == "unsupporting_extension"@,
{
    match t {
        PreloadImageErrorType::InvalidBody => "invalid_body",
        PreloadImageErrorType::Unauthorized => "unauthorized",
        PreloadImageErrorType::UnsupportingExtension => "unsupporting_extension",
    }
}

/// Whether a preload request carries the configured key. A missing header
/// reads as the empty string, so an empty configured key accepts requests
/// without one.
pub fn authorize_preload(provided_key: &String, configured_key: &String) -> (r: bool)
    ensures
        r == (provided_key@ == configured_key@),
{
    *provided_key == *configured_key
}

} // verus!
