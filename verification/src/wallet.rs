//! Wallets.
use crate::address::is_nvd_address;
use crate::digest::{hex_encode, md5_digest, md5_hex, md5_hex_of};
use crate::text::{
    byte_count, byte_len, hex_worth, law_lower_hex_digits, law_lower_hex_spells, lower_hex,
};
use vstd::prelude::*;

verus! {

/// An error of `ring` that says nothing more.
#[verifier::external_type_specification]
#[verifier::external_body]
pub struct ExUnspecified(ring::error::Unspecified);

/// Why `ring` does not take a key.
#[verifier::external_type_specification]
#[verifier::external_body]
pub struct ExKeyRejected(ring::error::KeyRejected);

/// The public key of the Ed25519 key pair in a PKCS#8 document; none where the document
/// is not taken.
pub uninterp spec fn ed25519_public_key(pkcs8: Seq<u8>) -> Option<Seq<u8>>;

/// Calls `ring::signature::Ed25519KeyPair::generate_pkcs8` with a
/// `ring::rand::SystemRandom`. Which pair comes out is left to chance; whichever it is,
/// the document is one that `Ed25519KeyPair::from_pkcs8` takes, since it is written with
/// the public key that belongs to its seed.
#[verifier::external_body]
fn generate_pkcs8() -> (r: Result<Vec<u8>, ring::error::Unspecified>)
    ensures
        r matches Ok(document) ==> ed25519_public_key(document@) is Some,
{
    let rng = ring::rand::SystemRandom::new();
    let document = ring::signature::Ed25519KeyPair::generate_pkcs8(&rng)?;
    Ok(document.as_ref().to_vec())
}

/// Calls `ring::signature::Ed25519KeyPair::from_pkcs8` and reads the pair's public key.
/// Whether the document is taken, and the key, are functions of its bytes; a key has 32
/// bytes. Which functions they are is not stated beyond the name `ed25519_public_key`.
#[verifier::external_body]
fn public_key_of(pkcs8: &[u8]) -> (r: Result<Vec<u8>, ring::error::KeyRejected>)
    ensures
        match r {
            Ok(key) => ed25519_public_key(pkcs8@) == Some(key@) && key@.len() == 32,
            Err(_) => ed25519_public_key(pkcs8@) is None,
        },
{
    let pair = ring::signature::Ed25519KeyPair::from_pkcs8(pkcs8)?;
    Ok(ring::signature::KeyPair::public_key(&pair).as_ref().to_vec())
}

/// A wallet: its address and its public key in hexadecimal.
#[derive(Debug)]
pub struct Wallet {
    pub address: String,
    pub public_key: String,
}

/// The address of a public key: `nvd_` and the hexadecimal digits of its first 16 bytes.
pub open spec fn address_of(key: Seq<u8>) -> Seq<char> {
    "nvd_"@ + lower_hex(key).take(32)
}

/// Whether `wallet` is that of the public key `key`.
pub open spec fn wallet_of(key: Seq<u8>, wallet: Wallet) -> bool {
    wallet.public_key@ == lower_hex(key) && wallet.address@ == address_of(key)
}

/// The shape of an Ed25519 wallet: a public key of 64 hexadecimal digits, and an address of
/// 36 characters.
pub open spec fn wallet_shape(wallet: Wallet) -> bool {
    &&& is_nvd_address(wallet.address@)
    &&& wallet.address@.len() == 36
    &&& wallet.public_key@.len() == 64
}

/// The address of a public key is an address.
pub proof fn law_wallet_address_is_valid(key: Seq<u8>)
    requires
        key.len() >= 16,
    ensures
        is_nvd_address(address_of(key)),
{
    reveal_strlit("nvd_");
    law_lower_hex_digits(key);
    let a = address_of(key);
    assert(a.take(4) =~= seq!['n', 'v', 'd', '_']);
    assert forall|i: int| 4 <= i < a.len() implies crate::text::is_hex_digit(#[trigger] a[i]) by {
        assert(a[i] == lower_hex(key)[i - 4]);
    }
}

/// The wallet of a public key.
pub fn wallet_from_key(key: &[u8]) -> (wallet: Wallet)
    requires
        key@.len() >= 16,
    ensures
        wallet_of(key@, wallet),
        is_nvd_address(wallet.address@),
        wallet.public_key@.len() == 2 * key@.len(),
        wallet.address@.len() == 36,
{
    let public_key = hex_encode(key);
    let mut address = "nvd_".to_owned();
    address.append(public_key.as_str().substring_char(0, 32));
    proof {
        reveal_strlit("nvd_");
        assert(lower_hex(key@).subrange(0, 32) =~= lower_hex(key@).take(32));
        law_wallet_address_is_valid(key@);
    }
    Wallet { address, public_key }
}

/// The wallet of the key pair in a PKCS#8 document; none where the document is not taken.
pub fn wallet_from_pkcs8(document: &[u8]) -> (r: Option<Wallet>)
    ensures
        match r {
            Some(wallet) => ed25519_public_key(document@) is Some && wallet_of(
                ed25519_public_key(document@)->0,
                wallet,
            ) && wallet_shape(wallet),
            None => ed25519_public_key(document@) is None,
        },
{
    match public_key_of(document) {
        Ok(key) => Some(wallet_from_key(key.as_slice())),
        Err(_) => None,
    }
}

/// Whether `r` is what a generation of a key pair leads to: no wallet where it failed, and
/// the wallet of the document that came out where that is taken.
pub open spec fn wallet_result(
    generated: Result<Vec<u8>, ring::error::Unspecified>,
    r: Option<Wallet>,
) -> bool {
    match generated {
        Ok(document) => match ed25519_public_key(document@) {
            Some(key) => r matches Some(wallet) && wallet_of(key, wallet) && wallet_shape(wallet),
            None => r is None,
        },
        Err(_) => r is None,
    }
}

/// The wallet that a generation of a key pair leads to.
pub fn wallet_from_generation(generated: Result<Vec<u8>, ring::error::Unspecified>) -> (r: Option<
    Wallet,
>)
    ensures
        wallet_result(generated, r),
{
    match generated {
        Ok(document) => wallet_from_pkcs8(document.as_slice()),
        Err(_) => None,
    }
}

/// Makes a wallet with a new key pair; none where no pair could be generated. A document
/// that was generated is always taken.
pub fn create_wallet() -> (r: Option<Wallet>)
    ensures
        exists|generated: Result<Vec<u8>, ring::error::Unspecified>|
            (generated matches Ok(document) ==> ed25519_public_key(document@) is Some)
                && #[trigger] wallet_result(generated, r),
        r matches Some(wallet) ==> wallet_shape(wallet),
{
    wallet_from_generation(generate_pkcs8())
}

/// Locks a public key with a password: the digest of the two, one behind the other. None
/// where the password has less than 6 bytes.
pub fn encrypt_wallet_local(password: &str, public_key: &str) -> (r: Option<String>)
    ensures
        match r {
            Some(vault) => byte_len(password@) >= 6 && vault@ == md5_hex_of(
                password@ + public_key@,
            ),
            None => byte_len(password@) < 6,
        },
{
    if byte_count(password) < 6 {
        return None;
    }
    let mut text = password.to_owned();
    text.append(public_key);
    Some(md5_hex(text.as_str()))
}

/// A wallet shows its whole public key, two hexadecimal digits for each byte, and its address
/// is `nvd_` and the first 32 of them, so that it goes by the first 16 bytes alone.
pub proof fn law_wallet_of_a_key(key: &[u8], wallet: Wallet)
    requires
        key@.len() >= 16,
        call_ensures(wallet_from_key, (key,), wallet),
    ensures
        wallet.public_key@.len() == 2 * key@.len(),
        forall|i: int|
            0 <= i < key@.len() ==> 16 * hex_worth(wallet.public_key@[2 * i]) + hex_worth(
                wallet.public_key@[2 * i + 1],
            ) == #[trigger] key@[i],
        wallet.address@ == seq!['n', 'v', 'd', '_'] + wallet.public_key@.take(32),
        wallet.address@.len() == 36,
{
    law_lower_hex_spells(key@);
    reveal_strlit("nvd_");
    assert("nvd_"@ =~= seq!['n', 'v', 'd', '_']);
}

/// A document gives a wallet exactly where its key pair is taken, that of the pair's public
/// key; a generation that failed gives none, and one that did not gives the wallet of its
/// document.
pub proof fn law_wallet_of_a_document(
    document: Vec<u8>,
    slice: &[u8],
    r: Option<Wallet>,
    generated: Option<Wallet>,
    error: ring::error::Unspecified,
    failed: Option<Wallet>,
)
    requires
        slice@ == document@,
        call_ensures(wallet_from_pkcs8, (slice,), r),
        call_ensures(
            wallet_from_generation,
            (Ok::<Vec<u8>, ring::error::Unspecified>(document),),
            generated,
        ),
        call_ensures(
            wallet_from_generation,
            (Err::<Vec<u8>, ring::error::Unspecified>(error),),
            failed,
        ),
    ensures
        r is Some <==> ed25519_public_key(document@) is Some,
        r matches Some(wallet) ==> {
            &&& wallet.public_key@ == lower_hex(ed25519_public_key(document@)->0)
            &&& wallet.address@ == seq!['n', 'v', 'd', '_'] + wallet.public_key@.take(32)
        },
        generated is Some <==> r is Some,
        generated matches Some(wallet) ==> wallet.public_key@ == r->0.public_key@ && wallet.address@
            == r->0.address@,
        failed is None,
{
    reveal_strlit("nvd_");
    assert("nvd_"@ =~= seq!['n', 'v', 'd', '_']);
}

/// A password of 6 bytes or more locks a key, however long either is, and a shorter one does
/// not. The vault is the digest of the whole password and then the whole key.
pub proof fn law_vault(password: &str, public_key: &str, r: Option<String>)
    requires
        call_ensures(encrypt_wallet_local, (password, public_key), r),
    ensures
        r is Some <==> byte_len(password@) >= 6,
        r matches Some(vault) ==> vault@ == lower_hex(
            md5_digest(vstd::utf8::encode_utf8(password@ + public_key@)),
        ),
{
}

/// A wallet made with a new key pair has a public key of 64 hexadecimal digits, and its
/// address is `nvd_` and the first 32 of them.
pub proof fn law_new_wallet(r: Option<Wallet>)
    requires
        call_ensures(create_wallet, (), r),
    ensures
        r matches Some(wallet) ==> {
            &&& wallet.public_key@.len() == 64
            &&& wallet.address@ == seq!['n', 'v', 'd', '_'] + wallet.public_key@.take(32)
            &&& forall|i: int|
                0 <= i < 64 ==> ('0' <= #[trigger] wallet.public_key@[i] <= '9' || 'a'
                    <= wallet.public_key@[i] <= 'f')
        },
{
    reveal_strlit("nvd_");
    assert("nvd_"@ =~= seq!['n', 'v', 'd', '_']);
    if let Some(wallet) = r {
        let generated = choose|generated: Result<Vec<u8>, ring::error::Unspecified>|
            (generated matches Ok(document) ==> ed25519_public_key(document@) is Some)
                && #[trigger] wallet_result(generated, r);
        law_lower_hex_spells(ed25519_public_key(generated->Ok_0@)->0);
    }
}

} // verus!
