use syodep::render_cache::{Bitmap, RenderCache};

/// A scale factor in thousandths, as the shell files it: rounded, and never
/// below one.
fn milli(scale: f32) -> u32 {
    (scale * 1000.0).round().max(1.0) as u32
}

fn bitmap(bytes: usize) -> Bitmap {
    Bitmap {
        width: bytes as u32 / 4,
        height: 1,
        data: vec![0; bytes],
    }
}

#[test]
fn caches_renders() {
    let mut cache = RenderCache::new(1024);
    let mut renders = 0;
    for _ in 0..3 {
        cache
            .get_or_render(0, milli(1.0), || -> Result<_, ()> {
                renders += 1;
                Ok(bitmap(100))
            })
            .unwrap();
    }
    assert_eq!(renders, 1);
    assert_eq!(cache.used_bytes(), 100);
}

#[test]
fn different_scales_are_different_entries() {
    let mut cache = RenderCache::new(1024);
    cache
        .get_or_render(0, milli(1.0), || -> Result<_, ()> { Ok(bitmap(100)) })
        .unwrap();
    cache
        .get_or_render(0, milli(2.0), || -> Result<_, ()> { Ok(bitmap(100)) })
        .unwrap();
    assert_eq!(cache.len(), 2);
}

#[test]
fn near_identical_scales_share_an_entry() {
    let mut cache = RenderCache::new(1024);
    cache
        .get_or_render(0, milli(1.0), || -> Result<_, ()> { Ok(bitmap(100)) })
        .unwrap();
    cache
        .get_or_render(0, milli(1.0001), || -> Result<_, ()> {
            panic!("should be a cache hit")
        })
        .unwrap();
    assert_eq!(cache.len(), 1);
}

#[test]
fn evicts_least_recently_used_when_over_budget() {
    let mut cache = RenderCache::new(250);
    cache
        .get_or_render(0, milli(1.0), || -> Result<_, ()> { Ok(bitmap(100)) })
        .unwrap();
    cache
        .get_or_render(1, milli(1.0), || -> Result<_, ()> { Ok(bitmap(100)) })
        .unwrap();
    // Touch page 0 so page 1 is the LRU.
    cache
        .get_or_render(0, milli(1.0), || -> Result<_, ()> {
            panic!("should be a cache hit")
        })
        .unwrap();
    cache
        .get_or_render(2, milli(1.0), || -> Result<_, ()> { Ok(bitmap(100)) })
        .unwrap();
    assert_eq!(cache.len(), 2);
    assert!(cache.used_bytes() <= 250);
    // Page 1 was evicted, pages 0 and 2 remain.
    let mut rerendered = false;
    cache
        .get_or_render(1, milli(1.0), || -> Result<_, ()> {
            rerendered = true;
            Ok(bitmap(100))
        })
        .unwrap();
    assert!(rerendered);
}

#[test]
fn single_oversized_entry_is_kept() {
    let mut cache = RenderCache::new(50);
    cache
        .get_or_render(0, milli(1.0), || -> Result<_, ()> { Ok(bitmap(100)) })
        .unwrap();
    assert_eq!(cache.len(), 1);
}

#[test]
fn render_errors_propagate_and_do_not_poison() {
    let mut cache = RenderCache::new(1024);
    let err = cache.get_or_render(0, milli(1.0), || Err("boom"));
    assert_eq!(err.unwrap_err(), "boom");
    cache
        .get_or_render(0, milli(1.0), || -> Result<_, &str> { Ok(bitmap(100)) })
        .unwrap();
    assert_eq!(cache.len(), 1);
}

#[test]
fn clearing_empties_the_cache() {
    let mut cache = RenderCache::new(1024);
    cache
        .get_or_render(0, milli(1.0), || -> Result<_, ()> { Ok(bitmap(100)) })
        .unwrap();
    assert!(!cache.is_empty());
    cache.clear();
    assert!(cache.is_empty());
    assert_eq!(cache.used_bytes(), 0);
}

#[test]
fn a_hit_hands_back_the_cached_bitmap() {
    let mut cache = RenderCache::default();
    let first = cache
        .get_or_render(3, milli(1.5), || -> Result<_, ()> { Ok(bitmap(40)) })
        .unwrap()
        .data
        .len();
    let again = cache
        .get_or_render(3, milli(1.5), || -> Result<_, ()> { Ok(bitmap(80)) })
        .unwrap()
        .data
        .len();
    assert_eq!((first, again), (40, 40));
    assert_eq!(cache.used_bytes(), 40);
}
