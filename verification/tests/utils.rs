use pow_ledger::utils::Hash32;

#[test]
fn from_bytes() {}

#[test]
fn from_bytes_hashes_its_input() {
    let digest = Hash32::from_bytes([0u8; 32]);
    assert_eq!(
        digest.to_hex(),
        "66687aadf862bd776c8fc18b8e9f8e20089714856ee233b3902a591d0d5f2925"
    );
    assert_ne!(digest, Hash32::default());
}

#[test]
fn from_string_hashes_the_utf8_bytes() {
    assert_eq!(
        Hash32::from_string("abc").to_hex(),
        "ba7816bf8f01cfea414140de5dae2223b00361a396177a9cb410ff61f20015ad"
    );
    assert_eq!(
        Hash32::from_string("").to_hex(),
        "e3b0c44298fc1c149afbf4c8996fb92427ae41e4649b934ca495991b7852b855"
    );
    assert_eq!(Hash32::from_string("h\u{e9}"), Hash32::digest(&[0x68, 0xc3, 0xa9]));
}

#[test]
fn digest_agrees_with_from_bytes_and_from_string() {
    assert_eq!(Hash32::digest(&[0u8; 32]), Hash32::from_bytes([0u8; 32]));
    assert_eq!(Hash32::digest(b"abc"), Hash32::from_string("abc"));
    assert_ne!(Hash32::digest(b"abc"), Hash32::digest(b"abd"));
}

#[test]
fn default_digest_is_all_zero() {
    let zero = Hash32::default();
    assert_eq!(zero.get_substr(32), vec![0u8; 32]);
    assert_eq!(zero.to_hex(), "0".repeat(64));
}

#[test]
fn get_substr_gives_the_leading_bytes() {
    let digest = Hash32::from_string("abc");
    assert_eq!(digest.get_substr(0), Vec::<u8>::new());
    assert_eq!(digest.get_substr(1), vec![0xba]);
    assert_eq!(digest.get_substr(4), vec![0xba, 0x78, 0x16, 0xbf]);
    assert_eq!(digest.get_substr(32).len(), 32);
    assert_eq!(digest.get_substr(32)[31], 0xad);
}

#[test]
fn to_hex_is_64_lowercase_digits() {
    let text = Hash32::from_string("text").to_hex();
    assert_eq!(text.len(), 64);
    assert!(text.chars().all(|c| c.is_ascii_digit() || ('a'..='f').contains(&c)));
    assert_eq!(hex::decode(&text).unwrap(), Hash32::from_string("text").get_substr(32));
}

#[test]
fn same_as_compares_byte_by_byte() {
    let a = Hash32::from_string("a");
    let b = Hash32::from_string("b");
    assert!(a.same_as(&a));
    assert!(a.same_as(&Hash32::from_string("a")));
    assert!(!a.same_as(&b));
    assert!(Hash32::default().same_as(&Hash32::default()));
    assert!(!a.same_as(&Hash32::default()));
    assert_eq!(a.same_as(&b), a == b);
}
