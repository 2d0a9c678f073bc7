use lv2_marshal::buf_size::{BoundedBlockLength, MaxBlockLength, MinBlockLength};
use lv2_marshal::feature::{
    Feature, FeatureCache, FeatureCollection, FeatureDescriptor, ThreadingClass,
};

fn descriptor<F: Feature>(data: usize) -> FeatureDescriptor {
    FeatureDescriptor { uri: F::uri(), data }
}

#[test]
fn required_capability_is_consumed_once() {
    let mut cache = FeatureCache::from_raw(vec![
        descriptor::<BoundedBlockLength>(0),
        descriptor::<MinBlockLength>(0),
    ]);
    let first: Result<BoundedBlockLength, _> =
        cache.retrieve_feature::<BoundedBlockLength, BoundedBlockLength>(
            ThreadingClass::Instantiation,
        );
    assert!(first.is_ok());
    let second: Result<BoundedBlockLength, _> =
        cache.retrieve_feature::<BoundedBlockLength, BoundedBlockLength>(
            ThreadingClass::Instantiation,
        );
    let err = second.unwrap_err();
    assert_eq!(err.uri, BoundedBlockLength::uri());
    // The other entry is untouched by the two resolutions.
    assert!(cache.contains::<MinBlockLength>());
}

#[test]
fn optional_capability_absence_is_none_not_error() {
    let mut cache = FeatureCache::from_raw(vec![descriptor::<MinBlockLength>(0)]);
    let missing: Result<Option<MaxBlockLength>, _> =
        cache.retrieve_feature::<MaxBlockLength, Option<MaxBlockLength>>(
            ThreadingClass::Instantiation,
        );
    assert!(missing.unwrap().is_none());
    let present: Result<Option<MinBlockLength>, _> =
        cache.retrieve_feature::<MinBlockLength, Option<MinBlockLength>>(
            ThreadingClass::Instantiation,
        );
    assert!(present.unwrap().is_some());
}

#[test]
fn required_capability_absence_is_an_error_with_its_uri() {
    let mut cache = FeatureCache::from_raw(vec![]);
    let missing: Result<MaxBlockLength, _> =
        cache.retrieve_feature::<MaxBlockLength, MaxBlockLength>(ThreadingClass::Other);
    let err = missing.unwrap_err();
    assert_eq!(err.uri, "http://lv2plug.in/ns/ext/buf-size#maxBlockLength".to_owned());
}

#[test]
fn contains_reflects_cache_contents() {
    let cache = FeatureCache::from_raw(vec![descriptor::<BoundedBlockLength>(7)]);
    assert!(cache.contains::<BoundedBlockLength>());
    assert!(!cache.contains::<MinBlockLength>());
    assert!(cache.contains_uri(&BoundedBlockLength::uri()));
}

#[test]
fn duplicate_uri_keeps_the_last_descriptor() {
    let mut cache = FeatureCache::from_raw(vec![
        FeatureDescriptor { uri: BoundedBlockLength::uri(), data: 1 },
        FeatureDescriptor { uri: BoundedBlockLength::uri(), data: 2 },
    ]);
    assert!(cache.contains::<BoundedBlockLength>());
    let taken: Result<BoundedBlockLength, _> =
        cache.retrieve_feature::<BoundedBlockLength, BoundedBlockLength>(
            ThreadingClass::Instantiation,
        );
    assert!(taken.is_ok());
    // Both descriptors stood under one URI: consuming it removes them all.
    assert!(!cache.contains::<BoundedBlockLength>());
}

#[test]
fn cache_resolves_as_an_independent_copy() {
    let mut cache = FeatureCache::from_raw(vec![
        descriptor::<BoundedBlockLength>(0),
        descriptor::<MinBlockLength>(0),
    ]);
    let copy = FeatureCache::from_cache(&mut cache, ThreadingClass::Instantiation).unwrap();
    // Consuming from the copy does not starve the original.
    let mut copy = copy;
    let _ = copy
        .retrieve_feature::<BoundedBlockLength, BoundedBlockLength>(ThreadingClass::Instantiation);
    assert!(!copy.contains::<BoundedBlockLength>());
    assert!(cache.contains::<BoundedBlockLength>());
}

#[test]
fn enumerating_yields_each_remaining_entry_once() {
    let cache = FeatureCache::from_raw(vec![
        descriptor::<BoundedBlockLength>(3),
        descriptor::<MinBlockLength>(4),
    ]);
    let descriptors = cache.into_descriptors();
    assert_eq!(descriptors.len(), 2);
    assert_eq!(descriptors[0].uri, BoundedBlockLength::uri());
    assert_eq!(descriptors[0].data, 3);
    assert_eq!(descriptors[1].uri, MinBlockLength::uri());
    assert_eq!(descriptors[1].data, 4);
}
