use novamind::address::validate_nvd_address;
use novamind::wallet::{
    create_wallet, encrypt_wallet_local, wallet_from_generation, wallet_from_key,
    wallet_from_pkcs8,
};
use ring::signature::KeyPair;

#[test]
fn wallet_of_a_known_key() {
    let key: Vec<u8> = (0..32u8).map(|i| i * 8 + 3).collect();
    let w = wallet_from_key(&key);
    assert_eq!(w.public_key, hex::encode(&key));
    assert_eq!(
        w.public_key,
        "030b131b232b333b434b535b636b737b838b939ba3abb3bbc3cbd3dbe3ebf3fb"
    );
    assert_eq!(w.address, "nvd_030b131b232b333b434b535b636b737b");
    assert!(validate_nvd_address(&w.address));
}

#[test]
fn wallet_of_a_document() {
    let rng = ring::rand::SystemRandom::new();
    let document = ring::signature::Ed25519KeyPair::generate_pkcs8(&rng).unwrap();
    let pair = ring::signature::Ed25519KeyPair::from_pkcs8(document.as_ref()).unwrap();
    let w = wallet_from_pkcs8(document.as_ref()).unwrap();
    assert_eq!(w.public_key, hex::encode(pair.public_key().as_ref()));
    assert_eq!(w.address, format!("nvd_{}", &w.public_key[..32]));
    assert!(wallet_from_pkcs8(b"no document").is_none());
}

#[test]
fn new_wallets_have_valid_addresses() {
    let a = create_wallet().unwrap();
    let b = create_wallet().unwrap();
    assert_eq!(a.public_key.len(), 64);
    assert_eq!(a.address.len(), 36);
    assert!(validate_nvd_address(&a.address));
    assert!(validate_nvd_address(&b.address));
    assert_ne!(a.public_key, b.public_key);
}

#[test]
fn vault_is_the_digest_of_password_and_key() {
    assert_eq!(
        encrypt_wallet_local("secret1", "pubkey").unwrap(),
        "f45b51c3fe47f600249cf0349582ee23"
    );
}

#[test]
fn short_passwords_are_refused() {
    assert!(encrypt_wallet_local("12345", "pubkey").is_none());
    assert!(encrypt_wallet_local("123456", "").is_some());
    assert!(encrypt_wallet_local("\u{e9}\u{e9}", "").is_none());
    assert!(encrypt_wallet_local("\u{e9}\u{e9}\u{e9}", "").is_some());
}

#[test]
fn wallet_comes_from_the_document_that_was_generated() {
    let rng = ring::rand::SystemRandom::new();
    let document = ring::signature::Ed25519KeyPair::generate_pkcs8(&rng).unwrap();
    let bytes = document.as_ref().to_vec();
    let direct = wallet_from_pkcs8(&bytes).unwrap();
    let w = wallet_from_generation(Ok(bytes)).unwrap();
    assert_eq!(w.public_key, direct.public_key);
    assert_eq!(w.address, direct.address);
}

#[test]
fn failed_generation_gives_no_wallet() {
    assert!(wallet_from_generation(Err(ring::error::Unspecified)).is_none());
    assert!(wallet_from_generation(Ok(vec![])).is_none());
}
