use alloy_studio::digest::DigestCache;

#[test]
fn test_compute_and_get() {
    let mut cache = DigestCache::new();
    let digest = cache.compute("/tmp/f.txt", b"hello");
    assert_eq!(digest.len(), 64);
    assert_eq!(cache.get("/tmp/f.txt").as_deref(), Some(digest.as_str()));
    assert_eq!(
        digest,
        "2cf24dba5fb0a30e26e83b2ac5b9e29e1b161e5c1fa7425e73043362938b9824"
    );
}

#[test]
fn test_invalidate() {
    let mut cache = DigestCache::new();
    cache.compute("/tmp/f.txt", b"data");
    assert!(cache.get("/tmp/f.txt").is_some());
    let removed = cache.invalidate("/tmp/f.txt");
    assert!(removed);
    assert!(cache.get("/tmp/f.txt").is_none());
    assert!(!cache.invalidate("/tmp/f.txt"));
}

#[test]
fn test_has_changed() {
    let mut cache = DigestCache::new();
    assert!(cache.has_changed("/tmp/f.txt", b"v1"));
    assert!(!cache.has_changed("/tmp/f.txt", b"v1"));
    assert!(cache.has_changed("/tmp/f.txt", b"v2"));
}

#[test]
fn test_clear() {
    let mut cache = DigestCache::new();
    cache.compute("/tmp/f.txt", b"x");
    cache.clear();
    assert!(cache.get("/tmp/f.txt").is_none());
}

#[test]
fn empty_content_digest() {
    let mut cache = DigestCache::new();
    assert_eq!(
        cache.compute("e", b""),
        "e3b0c44298fc1c149afbf4c8996fb92427ae41e4649b934ca495991b7852b855"
    );
}

#[test]
fn paths_are_compared_by_components() {
    let mut cache = DigestCache::new();
    let d = cache.compute("/tmp/a/b/", b"x");
    assert_eq!(cache.get("/tmp/a/b").as_deref(), Some(d.as_str()));
    assert_eq!(cache.get("/tmp//a/./b").as_deref(), Some(d.as_str()));
    assert!(!cache.has_changed("/tmp/a/b", b"x"));
    assert!(cache.invalidate("/tmp/a//b/"));
    assert!(cache.get("/tmp/a/b/").is_none());
}
