use quilt_painter::depth_cache::create_cache_key;

// SHA-256 test vectors: the digest of "abc" and of the empty input.
const SHA256_ABC: &str = "ba7816bf8f01cfea414140de5dae2223b00361a396177a9cb410ff61f20015ad";
const SHA256_EMPTY: &str = "e3b0c44298fc1c149afbf4c8996fb92427ae41e4649b934ca495991b7852b855";

#[test]
fn key_is_hex_sha256_of_contents_and_url() {
    assert_eq!(create_cache_key(b"", "abc"), SHA256_ABC);
    assert_eq!(create_cache_key(b"", ""), SHA256_EMPTY);
}

#[test]
fn contents_and_url_are_hashed_as_one_stream() {
    assert_eq!(create_cache_key(b"ab", "c"), SHA256_ABC);
    assert_eq!(create_cache_key(b"abc", ""), SHA256_ABC);
}

#[test]
fn different_urls_give_different_keys() {
    let a = create_cache_key(b"image bytes", "http://one");
    let b = create_cache_key(b"image bytes", "http://two");
    assert_ne!(a, b);
    assert_eq!(a.len(), 64);
    assert_eq!(b.len(), 64);
}
