use imgserve::image_processing::{ProcessingParams, RatioPolicy};
use imgserve::image_types::Extensions;
use imgserve::persistent_store::{PersistSpace, PersistentStorage, PersistentStore};
use imgserve::processed_image_cache::ImageOptionsOverflowPolicy;
use imgserve::processed_persistent_cache::PersistentProcessedImageCache;
use imgserve::storage::Storage;
use imgserve::types::ImageContainer;

fn p(width: u32) -> ProcessingParams {
    ProcessingParams {
        width: Some(width),
        height: None,
        extension: Some(Extensions::Webp),
        quality: Some(82),
        ratio_policy: Some(RatioPolicy::CropToCenter),
    }
}

#[test]
fn engine_point_operations_round_trip() {
    let store = PersistentStore::new("/tmp/imgserve-test-engine", 4, 4)
        .expect("the engine opens");
    let key = b"alpha".to_vec();
    assert!(store.set(PersistSpace::Storage, &key, &b"one".to_vec()));
    assert_eq!(store.get(PersistSpace::Storage, &key), Some(b"one".to_vec()));
    assert!(store.has_key(PersistSpace::Storage, &key));
    // last writer wins
    assert!(store.set(PersistSpace::Storage, &key, &b"two".to_vec()));
    assert_eq!(store.get(PersistSpace::Storage, &key), Some(b"two".to_vec()));
    store.remove(PersistSpace::Storage, &key);
    assert_eq!(store.get(PersistSpace::Storage, &key), None);
    assert!(!store.has_key(PersistSpace::Storage, &key));
    // the keyspaces are distinct
    assert!(store.set(PersistSpace::Cache, &key, &b"payload".to_vec()));
    assert!(!store.has_key(PersistSpace::Storage, &key));
    store.remove(PersistSpace::Cache, &key);
    assert!(store.persist());
}

#[test]
fn engine_prefix_removal_only_hits_the_prefix() {
    let store = PersistentStore::new("/tmp/imgserve-test-prefix", 4, 4)
        .expect("the engine opens");
    assert!(store.set(PersistSpace::Cache, &b"cat_{a}".to_vec(), &b"1".to_vec()));
    assert!(store.set(PersistSpace::Cache, &b"cat_{b}".to_vec(), &b"2".to_vec()));
    assert!(store.set(PersistSpace::Cache, &b"cat2_{a}".to_vec(), &b"3".to_vec()));
    store.remove_by_prefix(PersistSpace::Cache, &b"cat_{".to_vec());
    assert_eq!(store.get(PersistSpace::Cache, &b"cat_{a}".to_vec()), None);
    assert_eq!(store.get(PersistSpace::Cache, &b"cat_{b}".to_vec()), None);
    assert_eq!(store.get(PersistSpace::Cache, &b"cat2_{a}".to_vec()), Some(b"3".to_vec()));
    store.remove(PersistSpace::Cache, &b"cat2_{a}".to_vec());
}

#[test]
fn persistent_storage_stores_originals() {
    let mut storage = PersistentStorage::new("/tmp/imgserve-test-storage", 8)
        .expect("the engine opens");
    let id = String::from("cat");
    storage.set(id.clone(), &b"original-bytes".to_vec());
    assert_eq!(storage.get(&id), Some(b"original-bytes".to_vec()));
    storage.remove(id.clone());
    assert_eq!(storage.get(&id), None);
    assert!(storage.background());
}

#[test]
fn persistent_cache_admission_and_removal() {
    let engine = PersistentStore::new("/tmp/imgserve-test-cache", 4, 16)
        .expect("the engine opens");
    let cache = PersistentProcessedImageCache::new(engine, 2,
        ImageOptionsOverflowPolicy::Restrict);
    let id = String::from("pic");
    // start from a clean slate: the directory may survive earlier runs
    cache.remove(&id);
    assert_eq!(cache.records_count(&id), 0);
    let img1 = ImageContainer::new(Box::new(vec![1u8, 2, 3]),
        Some(String::from("pic.webp")), Extensions::Webp);
    assert!(cache.set(&id, &p(10), &img1).is_ok());
    let got = cache.get(&id, &p(10)).expect("freshly set variant reads back");
    assert_eq!(*got.data, vec![1u8, 2, 3]);
    assert_eq!(got.filename.as_deref(), Some("pic.webp"));
    assert_eq!(got.extension, Extensions::Webp);
    assert!(cache.have_record(&id, &p(10)));
    assert!(!cache.have_record(&id, &p(11)));
    let img2 = ImageContainer::new(Box::new(vec![4u8]), None, Extensions::Webp);
    assert!(cache.set(&id, &p(20), &img2).is_ok());
    assert_eq!(cache.records_count(&id), 2);
    // the budget is reached: Restrict refuses a third distinct record
    let img3 = ImageContainer::new(Box::new(vec![5u8]), None, Extensions::Webp);
    assert!(cache.set(&id, &p(30), &img3).is_err());
    // but an already-stored record is still accepted
    assert!(cache.set(&id, &p(10), &img3).is_ok());
    cache.remove(&id);
    assert!(cache.get(&id, &p(10)).is_none());
    assert!(cache.get(&id, &p(20)).is_none());
    assert_eq!(cache.records_count(&id), 0);
    assert!(cache.background());
}

#[test]
fn persistent_cache_rewrite_evicts_greatest() {
    let engine = PersistentStore::new("/tmp/imgserve-test-rewrite", 4, 16)
        .expect("the engine opens");
    let cache = PersistentProcessedImageCache::new(engine, 2,
        ImageOptionsOverflowPolicy::Rewrite);
    let id = String::from("pic");
    cache.remove(&id);
    let img = ImageContainer::new(Box::new(vec![9u8]), None, Extensions::Webp);
    assert!(cache.set(&id, &p(5), &img).is_ok());
    assert!(cache.set(&id, &p(9), &img).is_ok());
    assert!(cache.set(&id, &p(1), &img).is_ok());
    assert_eq!(cache.records_count(&id), 2);
    assert!(cache.have_record(&id, &p(1)));
    assert!(cache.have_record(&id, &p(5)));
    assert!(!cache.have_record(&id, &p(9)));
    cache.remove(&id);
}

#[test]
fn one_engine_serves_both_tiers() {
    let engine = PersistentStore::new("/tmp/imgserve-test-shared", 4, 16)
        .expect("the engine opens");
    let cache = PersistentProcessedImageCache::new(engine.share(), 4,
        ImageOptionsOverflowPolicy::Rewrite);
    let mut storage = imgserve::persistent_store::PersistentStorage { store: engine };
    let id = String::from("shared");
    cache.remove(&id);
    storage.set(id.clone(), &b"original".to_vec());
    let img = ImageContainer::new(Box::new(vec![7u8]), None, Extensions::Webp);
    assert!(cache.set(&id, &p(1), &img).is_ok());
    assert_eq!(storage.get(&id), Some(b"original".to_vec()));
    assert_eq!(*cache.get(&id, &p(1)).unwrap().data, vec![7u8]);
    storage.remove(id.clone());
    cache.remove(&id);
}
