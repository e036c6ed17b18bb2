use hle_render::cache::{RenderTarget, TargetCache};

#[test]
fn new_cache_is_empty() {
    let cache = TargetCache::new();
    assert_eq!(cache.len(), 0);
    assert_eq!(cache.lookup(0), None);
    assert_eq!(cache.get(0), None);
}

#[test]
fn get_or_create_is_idempotent() {
    let mut cache = TargetCache::new();
    assert_eq!(cache.get_or_create(0x1000, 320, 240), (0, true));
    assert_eq!(cache.get_or_create(0x1000, 320, 240), (0, false));
    assert_eq!(cache.get_or_create(0x1000, 640, 480), (0, false));
    assert_eq!(cache.len(), 1);
    assert_eq!(cache.get(0), Some(RenderTarget { address: 0x1000, width: 320, height: 240 }));
}

#[test]
fn entries_keep_insertion_order() {
    let mut cache = TargetCache::new();
    assert_eq!(cache.get_or_create(30, 1, 1), (0, true));
    assert_eq!(cache.get_or_create(10, 2, 2), (1, true));
    assert_eq!(cache.get_or_create(20, 3, 3), (2, true));
    assert_eq!(cache.get_or_create(10, 9, 9), (1, false));
    assert_eq!(cache.len(), 3);
    assert_eq!(cache.get(0), Some(RenderTarget { address: 30, width: 1, height: 1 }));
    assert_eq!(cache.get(1), Some(RenderTarget { address: 10, width: 2, height: 2 }));
    assert_eq!(cache.get(2), Some(RenderTarget { address: 20, width: 3, height: 3 }));
    assert_eq!(cache.get(3), None);
}

#[test]
fn lookup_finds_by_address() {
    let mut cache = TargetCache::new();
    cache.get_or_create(0xFFFF_FFFF, 1, 1);
    cache.get_or_create(0, 1, 1);
    assert_eq!(cache.lookup(0), Some(1));
    assert_eq!(cache.lookup(0xFFFF_FFFF), Some(0));
    assert_eq!(cache.lookup(1), None);
}
