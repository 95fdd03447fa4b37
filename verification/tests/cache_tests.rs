use imgserve::image_processing::{ProcessingParams, RatioPolicy};
use imgserve::image_types::Extensions;
use imgserve::processed_image_cache::{ImageOptionsOverflowPolicy, MemoryProcessedImageCache};
use imgserve::types::ImageContainer;

fn p(width: u32) -> ProcessingParams {
    ProcessingParams {
        width: Some(width),
        height: None,
        extension: None,
        quality: None,
        ratio_policy: None,
    }
}

fn img(tag: u8) -> ImageContainer {
    ImageContainer::new(Box::new(vec![tag, tag, tag]), None, Extensions::Webp)
}

#[test]
fn set_then_get_returns_the_value() {
    let mut cache = MemoryProcessedImageCache::new(16, 4, ImageOptionsOverflowPolicy::Restrict);
    let id = String::from("cat");
    assert!(cache.set(id.clone(), p(1), img(1)).is_ok());
    let got = cache.get(&id, &p(1)).expect("freshly set variant is cached");
    assert_eq!(*got.data, vec![1u8, 1, 1]);
    assert!(cache.get(&id, &p(2)).is_none());
    assert!(cache.get(&String::from("dog"), &p(1)).is_none());
}

#[test]
fn set_is_idempotent_on_the_same_key() {
    let mut cache = MemoryProcessedImageCache::new(16, 4, ImageOptionsOverflowPolicy::Restrict);
    let id = String::from("cat");
    assert!(cache.set(id.clone(), p(1), img(1)).is_ok());
    assert!(cache.set(id.clone(), p(1), img(2)).is_ok());
    // the earlier payload is kept: invalidation goes through remove
    let got = cache.get(&id, &p(1)).unwrap();
    assert_eq!(*got.data, vec![1u8, 1, 1]);
    assert_eq!(cache.records_count(&id), 1);
}

#[test]
fn restrict_policy_refuses_over_budget() {
    let mut cache = MemoryProcessedImageCache::new(16, 2, ImageOptionsOverflowPolicy::Restrict);
    let id = String::from("x");
    assert!(cache.set(id.clone(), p(1), img(1)).is_ok());
    assert!(cache.set(id.clone(), p(2), img(2)).is_ok());
    assert!(cache.set(id.clone(), p(3), img(3)).is_err());
    // the refused insert changed nothing
    assert_eq!(cache.records_count(&id), 2);
    assert!(cache.have_record(&id, &p(1)));
    assert!(cache.have_record(&id, &p(2)));
    assert!(!cache.have_record(&id, &p(3)));
    // a re-set of an existing key still succeeds at the budget
    assert!(cache.set(id.clone(), p(2), img(9)).is_ok());
}

#[test]
fn rewrite_policy_evicts_exactly_the_greatest() {
    let mut cache = MemoryProcessedImageCache::new(16, 2, ImageOptionsOverflowPolicy::Rewrite);
    let id = String::from("x");
    assert!(cache.set(id.clone(), p(5), img(5)).is_ok());
    assert!(cache.set(id.clone(), p(9), img(9)).is_ok());
    // p(9) is the greatest cached record; the next admission evicts it
    assert!(cache.set(id.clone(), p(1), img(1)).is_ok());
    assert_eq!(cache.records_count(&id), 2);
    assert!(cache.have_record(&id, &p(1)));
    assert!(cache.have_record(&id, &p(5)));
    assert!(!cache.have_record(&id, &p(9)));
    let got = cache.get(&id, &p(1)).unwrap();
    assert_eq!(*got.data, vec![1u8, 1, 1]);
}

#[test]
fn remove_evicts_every_variant_of_one_identifier() {
    let mut cache = MemoryProcessedImageCache::new(16, 4, ImageOptionsOverflowPolicy::Restrict);
    let id = String::from("x");
    let other = String::from("y");
    assert!(cache.set(id.clone(), p(1), img(1)).is_ok());
    assert!(cache.set(id.clone(), p(2), img(2)).is_ok());
    assert!(cache.set(other.clone(), p(1), img(7)).is_ok());
    cache.remove(id.clone());
    assert!(cache.get(&id, &p(1)).is_none());
    assert!(cache.get(&id, &p(2)).is_none());
    assert_eq!(cache.records_count(&id), 0);
    // the other identifier is untouched
    let got = cache.get(&other, &p(1)).unwrap();
    assert_eq!(*got.data, vec![7u8, 7, 7]);
    // removing an absent identifier is a no-op
    cache.remove(String::from("absent"));
    assert_eq!(cache.records_count(&other), 1);
}

#[test]
fn budget_is_per_identifier() {
    let mut cache = MemoryProcessedImageCache::new(16, 1, ImageOptionsOverflowPolicy::Restrict);
    assert!(cache.set(String::from("a"), p(1), img(1)).is_ok());
    assert!(cache.set(String::from("b"), p(1), img(2)).is_ok());
    assert!(cache.set(String::from("a"), p(2), img(3)).is_err());
    assert_eq!(cache.records_count(&String::from("a")), 1);
    assert_eq!(cache.records_count(&String::from("b")), 1);
    assert_eq!(cache.max_options_per_image(), 1);
    assert_eq!(cache.max_options_per_image_overflow_policy(),
        ImageOptionsOverflowPolicy::Restrict);
}

#[test]
fn identifier_capacity_evicts_the_oldest_identifier() {
    let mut cache = MemoryProcessedImageCache::new(2, 4, ImageOptionsOverflowPolicy::Restrict);
    assert!(cache.set(String::from("a"), p(1), img(1)).is_ok());
    assert!(cache.set(String::from("b"), p(1), img(2)).is_ok());
    // a third identifier evicts the oldest one, a
    assert!(cache.set(String::from("c"), p(1), img(3)).is_ok());
    assert!(cache.get(&String::from("a"), &p(1)).is_none());
    assert!(cache.get(&String::from("b"), &p(1)).is_some());
    assert!(cache.get(&String::from("c"), &p(1)).is_some());
    // an existing identifier never forces an eviction
    assert!(cache.set(String::from("b"), p(2), img(4)).is_ok());
    assert!(cache.get(&String::from("c"), &p(1)).is_some());
}

#[test]
fn getters_report_configuration() {
    let cache = MemoryProcessedImageCache::new(1024, 32, ImageOptionsOverflowPolicy::Rewrite);
    assert_eq!(cache.max_options_per_image(), 32);
    assert_eq!(cache.max_options_per_image_overflow_policy(),
        ImageOptionsOverflowPolicy::Rewrite);
}
