use birbfetcher::digest::{sha256, storage_key, DIGEST_LEN};

#[test]
fn sha256_of_nothing() {
    let digest = sha256(b"");
    assert_eq!(digest.len(), DIGEST_LEN);
    assert_eq!(
        storage_key(&digest),
        "E3B0C44298FC1C149AFBF4C8996FB92427AE41E4649B934CA495991B7852B855"
    );
}

#[test]
fn sha256_of_abc() {
    let digest = sha256(b"abc");
    assert_eq!(digest.len(), 32);
    assert_eq!(
        storage_key(&digest),
        "BA7816BF8F01CFEA414140DE5DAE2223B00361A396177A9CB410FF61F20015AD"
    );
    assert_eq!(digest[0], 0xBA);
    assert_eq!(digest[31], 0xAD);
}

#[test]
fn sha256_is_not_the_input() {
    let data = vec![7u8; 32];
    assert_ne!(sha256(&data), data);
}

#[test]
fn digest_is_deterministic() {
    let bytes = b"the same bird twice".to_vec();
    let first = sha256(&bytes);
    let second = sha256(&bytes.clone());
    assert_eq!(first, second);
    assert_eq!(storage_key(&first), storage_key(&second));
    assert_ne!(sha256(b"another bird"), first);
}

#[test]
fn key_is_upper_case_hex() {
    assert_eq!(storage_key(&[]), "");
    assert_eq!(storage_key(&[0x00]), "00");
    assert_eq!(storage_key(&[0x0F]), "0F");
    assert_eq!(storage_key(&[0xF0]), "F0");
    assert_eq!(storage_key(&[0xFF]), "FF");
    assert_eq!(storage_key(&[1, 2, 3, 15, 16]), "0102030F10");
    assert_eq!(storage_key(&[0xAB, 0xCD, 0xEF]), "ABCDEF");
    assert_eq!(storage_key(b"Hello world!"), "48656C6C6F20776F726C6421");
}

#[test]
fn key_is_twice_as_long_as_the_digest() {
    for n in 0..40usize {
        let data = vec![0x5Au8; n];
        assert_eq!(storage_key(&data).len(), 2 * n);
    }
    assert_eq!(storage_key(&sha256(b"x")).len(), 64);
}

#[test]
fn distinct_bytes_have_distinct_keys() {
    let mut seen = std::collections::HashSet::new();
    for b in 0..=255u8 {
        assert!(seen.insert(storage_key(&[b])));
    }
    assert_eq!(seen.len(), 256);
}
