use astra::{
    cached_outline, cached_text_layout, touch_next, png_render_result, store_formula, store_outline, store_text_layout, MathCacheKey,
    ShapeCacheKey, TextCacheKey, TouchCache, MATH_CACHE_CAPACITY, SHAPE_CACHE_KEEP,
    SHAPE_CACHE_LIMIT, TEXT_CACHE_CAPACITY,
};

fn shape_key(id: &str, seed: u32) -> ShapeCacheKey {
    (id.to_string(), seed, 0, 0x3FF0_0000_0000_0000, 0, 42)
}

#[test]
fn cache_insert_then_get() {
    let mut cache: TouchCache<TextCacheKey, &str> = TouchCache::new();
    assert_eq!(cache.len(), 0);
    cache.insert(("a".to_string(), 1), "first", 1);
    cache.insert(("b".to_string(), 1), "second", 2);
    assert_eq!(cache.len(), 2);
    assert_eq!(cache.get(&("a".to_string(), 1)), Some(&"first"));
    assert_eq!(cache.get(&("b".to_string(), 1)), Some(&"second"));
    assert_eq!(cache.get(&("a".to_string(), 2)), None);
    assert!(!cache.contains(&("c".to_string(), 1)));
}

#[test]
fn cache_insert_replaces_value() {
    let mut cache: TouchCache<MathCacheKey, u32> = TouchCache::new();
    cache.insert((1, 2, 3), 10, 1);
    cache.insert((1, 2, 3), 20, 2);
    assert_eq!(cache.len(), 1);
    assert_eq!(cache.get(&(1, 2, 3)), Some(&20));
}

#[test]
fn cache_remove_gives_value_and_stamp() {
    let mut cache: TouchCache<MathCacheKey, u32> = TouchCache::new();
    cache.insert((7, 0, 0), 70, 5);
    assert_eq!(cache.remove(&(7, 0, 0)), Some((70, 5)));
    assert_eq!(cache.remove(&(7, 0, 0)), None);
    assert_eq!(cache.len(), 0);
}

#[test]
fn shrink_drops_least_recently_used() {
    let mut cache: TouchCache<MathCacheKey, u32> = TouchCache::new();
    cache.insert((1, 0, 0), 1, 10);
    cache.insert((2, 0, 0), 2, 20);
    cache.insert((3, 0, 0), 3, 30);
    // Using the oldest entry again makes the middle one the oldest.
    assert!(cache.touch(&(1, 0, 0), 40));
    assert!(!cache.touch(&(9, 0, 0), 50));
    cache.shrink_to(2);
    assert_eq!(cache.len(), 2);
    assert!(cache.contains(&(1, 0, 0)));
    assert!(!cache.contains(&(2, 0, 0)));
    assert!(cache.contains(&(3, 0, 0)));
    cache.shrink_to(5);
    assert_eq!(cache.len(), 2);
    cache.shrink_to(0);
    assert_eq!(cache.len(), 0);
}

#[test]
fn outline_cache_is_cut_back_to_newest() {
    let mut cache: TouchCache<ShapeCacheKey, u32> = TouchCache::new();
    for i in 0..(SHAPE_CACHE_LIMIT as u32) {
        store_outline(&mut cache, shape_key("s", i), i, i as u64 + 1);
    }
    assert_eq!(cache.len(), SHAPE_CACHE_LIMIT);
    store_outline(&mut cache, shape_key("s", 5000), 5000, 5000);
    assert_eq!(cache.len(), SHAPE_CACHE_KEEP);
    assert_eq!(cache.get(&shape_key("s", 5000)), Some(&5000));
    assert!(cache.contains(&shape_key("s", 999)));
    assert!(!cache.contains(&shape_key("s", 0)));
    assert!(!cache.contains(&shape_key("s", 500)));
    assert!(cache.contains(&shape_key("s", 501)));
}

#[test]
fn text_cache_keeps_capacity() {
    let mut cache: TouchCache<TextCacheKey, u64> = TouchCache::new();
    for i in 0..(TEXT_CACHE_CAPACITY as u64 + 3) {
        store_text_layout(&mut cache, ("t".to_string(), i), i, i + 1);
    }
    assert_eq!(cache.len(), TEXT_CACHE_CAPACITY);
    assert!(!cache.contains(&("t".to_string(), 2)));
    assert!(cache.contains(&("t".to_string(), 3)));
    assert_eq!(
        cache.get(&("t".to_string(), TEXT_CACHE_CAPACITY as u64 + 2)),
        Some(&(TEXT_CACHE_CAPACITY as u64 + 2))
    );
}

#[test]
fn formula_cache_evicts_before_adding() {
    let mut cache: TouchCache<MathCacheKey, u64> = TouchCache::new();
    for i in 0..(MATH_CACHE_CAPACITY as u64 + 1) {
        store_formula(&mut cache, (i, 0, 0), i, i + 1);
    }
    assert_eq!(cache.len(), MATH_CACHE_CAPACITY + 1);
    store_formula(&mut cache, (1000, 0, 0), 1000, 1000);
    assert_eq!(cache.len(), MATH_CACHE_CAPACITY + 1);
    assert!(!cache.contains(&(0, 0, 0)));
    assert!(cache.contains(&(1, 0, 0)));
    assert_eq!(cache.get(&(1000, 0, 0)), Some(&1000));
}

#[test]
fn render_result_needs_pixels_and_readback() {
    assert!(png_render_result(Some(vec![0; 4]), 0, 1).is_none());
    assert!(png_render_result(Some(vec![0; 4]), 1, 0).is_none());
    assert!(png_render_result(None, 1, 1).is_none());
    let r = png_render_result(Some(vec![1, 2, 3, 4]), 1, 1).unwrap();
    assert_eq!((r.width, r.height), (1, 1));
    assert_eq!(r.rgba_data, vec![1, 2, 3, 4]);
}

#[test]
fn cached_outline_computes_once_then_hits() {
    let mut cache: TouchCache<ShapeCacheKey, Vec<u32>> = TouchCache::new();
    let mut generation: u64 = 0;
    let first = cached_outline(&mut cache, &mut generation, shape_key("a", 1), || vec![1, 2, 3]);
    assert_eq!(first, vec![1, 2, 3]);
    assert_eq!(generation, 1);
    assert_eq!(cache.len(), 1);
    let again = cached_outline(&mut cache, &mut generation, shape_key("a", 1), || vec![9]);
    assert_eq!(again, vec![1, 2, 3]);
    assert_eq!(generation, 2);
    assert_eq!(cache.len(), 1);
    let other = cached_outline(&mut cache, &mut generation, shape_key("b", 1), || vec![4]);
    assert_eq!(other, vec![4]);
    assert_eq!(cache.len(), 2);
}

#[test]
fn cached_outline_generation_wraps() {
    let mut cache: TouchCache<ShapeCacheKey, u8> = TouchCache::new();
    let mut generation = u64::MAX;
    let v = cached_outline(&mut cache, &mut generation, shape_key("w", 0), || 5);
    assert_eq!(v, 5);
    assert_eq!(generation, 0);
}

#[test]
fn cached_outline_keeps_cache_bounded() {
    let mut cache: TouchCache<ShapeCacheKey, u32> = TouchCache::new();
    let mut generation: u64 = 0;
    for i in 0..(SHAPE_CACHE_LIMIT as u32 + 1) {
        cached_outline(&mut cache, &mut generation, shape_key("s", i), || i);
    }
    assert_eq!(cache.len(), SHAPE_CACHE_KEEP);
    assert_eq!(
        cache.get(&shape_key("s", SHAPE_CACHE_LIMIT as u32)),
        Some(&(SHAPE_CACHE_LIMIT as u32))
    );
}

#[test]
fn cached_text_layout_hits_after_miss() {
    let mut cache: TouchCache<TextCacheKey, String> = TouchCache::new();
    let mut generation: u64 = 10;
    let key = ("t1".to_string(), 99);
    let first = cached_text_layout(&mut cache, &mut generation, key.clone(), || "laid out".to_string());
    assert_eq!(first, "laid out");
    assert_eq!(generation, 11);
    let again = cached_text_layout(&mut cache, &mut generation, key.clone(), || "other".to_string());
    assert_eq!(again, "laid out");
    assert_eq!(generation, 12);
    assert_eq!(cache.len(), 1);
}

#[test]
fn touch_next_advances_and_marks() {
    let mut cache: TouchCache<MathCacheKey, u32> = TouchCache::new();
    cache.insert((1, 0, 0), 1, 1);
    cache.insert((2, 0, 0), 2, 2);
    let mut generation: u64 = 2;
    assert!(touch_next(&mut cache, &mut generation, &(1, 0, 0)));
    assert_eq!(generation, 3);
    assert!(!touch_next(&mut cache, &mut generation, &(9, 0, 0)));
    assert_eq!(generation, 4);
    // The touched entry is now the newer one, so the other is dropped.
    cache.shrink_to(1);
    assert!(cache.contains(&(1, 0, 0)));
    assert!(!cache.contains(&(2, 0, 0)));
}
