use dbfc::fingerprint::fingerprint;
use dbfc::fingerprint::to_hex;

#[test]
fn fingerprint_of_known_content() {
    assert_eq!(
        fingerprint(b"abc"),
        "ba7816bf8f01cfea414140de5dae2223b00361a396177a9cb410ff61f20015ad"
    );
}

#[test]
fn fingerprint_of_empty_content() {
    assert_eq!(
        fingerprint(b""),
        "e3b0c44298fc1c149afbf4c8996fb92427ae41e4649b934ca495991b7852b855"
    );
}

#[test]
fn fingerprint_covers_the_whole_content() {
    let mut content = vec![0u8; 100_000];
    let whole = fingerprint(&content);
    content[99_999] = 1;
    assert_ne!(fingerprint(&content), whole);
    assert_ne!(fingerprint(&content[..99_999]), whole);
}

#[test]
fn fingerprint_is_the_same_for_the_same_content() {
    let content = b"the same bytes".to_vec();
    let copy = content.clone();
    assert_eq!(fingerprint(&content), fingerprint(&copy));
    assert_eq!(fingerprint(&content), fingerprint(&content));
}

#[test]
fn fingerprint_changes_with_one_byte() {
    let content = b"the same bytes".to_vec();
    for at in 0..content.len() {
        let mut changed = content.clone();
        changed[at] ^= 1;
        assert_ne!(fingerprint(&changed), fingerprint(&content));
    }
}

#[test]
fn fingerprint_is_64_lowercase_hex_digits() {
    let text = fingerprint(b"hello world");
    assert_eq!(text.len(), 64);
    assert!(text.chars().all(|c| matches!(c, '0'..='9' | 'a'..='f')));
    assert_eq!(
        text,
        "b94d27b9934d3e08a52e52d7da7dabfac484efe37a5380ee9088f7ace2efcde9"
    );
}

#[test]
fn to_hex_writes_two_digits_per_byte() {
    assert_eq!(to_hex(&[10, 20, 30]), "0a141e");
    assert_eq!(to_hex(&[0x00, 0x0f, 0xf0, 0xff]), "000ff0ff");
    assert_eq!(to_hex(&[0xab, 0xcd, 0xef]), "abcdef");
}

#[test]
fn to_hex_of_nothing_is_empty() {
    assert_eq!(to_hex(&[]), "");
}

#[test]
fn to_hex_tells_every_byte_apart() {
    let mut seen = std::collections::HashSet::new();
    for byte in 0..=255u8 {
        let text = to_hex(&[byte]);
        assert_eq!(text, format!("{:02x}", byte));
        assert!(seen.insert(text));
    }
}
