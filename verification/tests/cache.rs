use wasm_compiler::cache::{calculate_hash, CompileCache, CACHE_CAPACITY};

#[test]
fn new_cache_is_empty() {
    let cache = CompileCache::new();
    assert_eq!(cache.len(), 0);
    assert_eq!(cache.lookup(1), None);
}

#[test]
fn stored_binary_is_found_again() {
    let mut cache = CompileCache::new();
    cache.store(7, vec![1, 2, 3]);
    assert_eq!(cache.lookup(7), Some(vec![1, 2, 3]));
    assert_eq!(cache.lookup(8), None);
    cache.store(7, vec![4]);
    assert_eq!(cache.lookup(7), Some(vec![4]));
    assert_eq!(cache.len(), 1);
}

#[test]
fn clear_empties_the_cache() {
    let mut cache = CompileCache::new();
    cache.store(1, vec![1]);
    cache.store(2, vec![2]);
    cache.clear();
    assert_eq!(cache.len(), 0);
    assert_eq!(cache.lookup(1), None);
}

#[test]
fn store_into_full_cache_leaves_one_entry() {
    let mut cache = CompileCache::new();
    for key in 0..(CACHE_CAPACITY as u64) {
        cache.store(key, vec![key as u8]);
        assert_eq!(cache.len(), key as usize + 1);
    }
    assert_eq!(cache.len(), 100);
    cache.store(1000, vec![0xaa]);
    assert_eq!(cache.len(), 1);
    assert_eq!(cache.lookup(1000), Some(vec![0xaa]));
    assert_eq!(cache.lookup(0), None);
}

#[test]
fn cache_never_holds_more_than_its_capacity() {
    let mut cache = CompileCache::new();
    for key in 0..1000u64 {
        cache.store(key % 317, vec![1]);
        assert!(cache.len() <= CACHE_CAPACITY);
        assert_eq!(cache.lookup(key % 317), Some(vec![1]));
    }
}

#[test]
fn fingerprint_depends_on_the_exact_text() {
    assert_eq!(calculate_hash("(module)"), calculate_hash("(module)"));
    assert_ne!(calculate_hash("(module)"), calculate_hash("(module) "));
    assert_ne!(calculate_hash("(module)"), calculate_hash("( module)"));
    assert_ne!(calculate_hash(""), calculate_hash("\n"));
}
