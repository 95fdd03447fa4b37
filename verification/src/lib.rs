//! Image-processing proxy core: derivative caching with per-image admission
//! control, original-bytes storage, resize planning, format sniffing, and the
//! persistence codecs, all with machine-checked contracts.

pub mod codec;
pub mod errors;
pub mod filename_extractor;
pub mod image_processing;
pub mod image_types;
pub mod img_ops;
pub mod keys;
pub mod persistent_store;
pub mod processed_image_cache;
pub mod processed_persistent_cache;
pub mod processing;
pub mod proxying_images;
pub mod resize;
pub mod responses;
pub mod storage;
pub mod types;
