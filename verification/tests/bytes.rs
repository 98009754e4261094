use birbfetcher::bytes::{copy_bytes, same_bytes};

#[test]
fn same_bytes_compares_contents() {
    assert!(same_bytes(&[], &[]));
    assert!(same_bytes(&[1, 2, 3], &[1, 2, 3]));
    assert!(!same_bytes(&[1, 2, 3], &[1, 2, 4]));
    assert!(!same_bytes(&[0, 2, 3], &[1, 2, 3]));
    assert!(!same_bytes(&[1, 2, 3], &[1, 2]));
    assert!(!same_bytes(&[1, 2], &[1, 2, 3]));
    assert!(!same_bytes(&[], &[0]));
}

#[test]
fn copy_bytes_copies() {
    assert_eq!(copy_bytes(&[]), Vec::<u8>::new());
    assert_eq!(copy_bytes(&[9, 8, 7]), vec![9, 8, 7]);
    let long: Vec<u8> = (0..=255u8).collect();
    assert_eq!(copy_bytes(&long), long);
}
