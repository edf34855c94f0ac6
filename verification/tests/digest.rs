use install_checker::digest::{checksum_of, digest_of, fingerprint};

#[test]
fn digest_of_nothing() {
    assert_eq!(
        digest_of(b""),
        "e3b0c44298fc1c149afbf4c8996fb92427ae41e4649b934ca495991b7852b855"
    );
}

#[test]
fn digest_of_abc() {
    assert_eq!(
        digest_of(b"abc"),
        "ba7816bf8f01cfea414140de5dae2223b00361a396177a9cb410ff61f20015ad"
    );
}

#[test]
fn digest_has_sixty_four_lowercase_hex_digits() {
    for data in [&b""[..], b"abc", b"hello world", &[0u8; 1000]] {
        let digest = digest_of(data);
        assert_eq!(digest.len(), 64);
        assert!(digest.chars().all(|c| matches!(c, '0'..='9' | 'a'..='f')));
    }
}

#[test]
fn checksum_of_nothing_is_zero() {
    assert_eq!(checksum_of(b""), 0);
}

#[test]
fn checksum_of_the_check_string() {
    assert_eq!(checksum_of(b"123456789"), 0xcbf43926);
    assert_eq!(checksum_of(b"abc"), 891568578);
}

#[test]
fn fingerprint_takes_all_three_from_the_same_bytes() {
    let print = fingerprint(b"hello world");
    assert_eq!(print.size, 11);
    assert_eq!(
        print.digest,
        "b94d27b9934d3e08a52e52d7da7dabfac484efe37a5380ee9088f7ace2efcde9"
    );
    assert_eq!(print.checksum, 222957957);
}

#[test]
fn fingerprint_of_nothing() {
    let print = fingerprint(b"");
    assert_eq!(print.size, 0);
    assert_eq!(
        print.digest,
        "e3b0c44298fc1c149afbf4c8996fb92427ae41e4649b934ca495991b7852b855"
    );
    assert_eq!(print.checksum, 0);
}

#[test]
fn fingerprint_is_the_same_each_time() {
    let data = b"0123456789";
    let first = fingerprint(data);
    let second = fingerprint(data);
    assert_eq!(first.size, second.size);
    assert_eq!(first.digest, second.digest);
    assert_eq!(first.checksum, second.checksum);
}

#[test]
fn one_changed_byte_changes_digest_and_checksum() {
    let before = fingerprint(b"0123456789");
    let after = fingerprint(b"0123456780");
    assert_eq!(before.size, after.size);
    assert_ne!(before.digest, after.digest);
    assert_ne!(before.checksum, after.checksum);
}
