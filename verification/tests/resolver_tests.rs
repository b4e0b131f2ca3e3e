use sha2::Digest;

use genesis_wallet::codec::{encrypt_keypair, DecryptionError, StoredKeypair};
use genesis_wallet::keys::{PublicKey, SecretKey};
use genesis_wallet::password::Password;
use genesis_wallet::resolve::{find_secret_key, ExtractionRule, FindKeyError};
use genesis_wallet::store::{new_key_entry, Address, Entry, ValidatorData, ValidatorKeys, Wallet};

fn sk_of(seed: u8) -> SecretKey {
    SecretKey { bytes: vec![seed; 32] }
}

fn pwd(text: &str) -> Password {
    Password { text: text.to_string() }
}

fn wallet_with_plain_key(alias: &str, seed: u8) -> (Wallet, PublicKey) {
    let sk = sk_of(seed);
    let pk = sk.to_public();
    let entry = new_key_entry(StoredKeypair::Plain(sk), pk.copied());
    let mut w = Wallet::new_empty();
    w.add(alias.to_string(), entry, false, &Vec::new());
    (w, pk)
}

fn validator_data(protocol_seed: u8, eth_seed: u8) -> ValidatorData {
    ValidatorData {
        address: Address { text: "validator-address".to_string() },
        keys: ValidatorKeys {
            protocol_keypair: sk_of(protocol_seed),
            eth_bridge_keypair: sk_of(eth_seed),
            dkg_keypair: sk_of(9),
        },
    }
}

#[test]
fn no_requested_key_resolves_to_nothing() {
    let (w, _) = wallet_with_plain_key("a", 1);
    let r = find_secret_key(&w, None, ExtractionRule::ProtocolKey, None);
    assert!(matches!(r, Ok(None)));
    let r2 = find_secret_key(&w, None, ExtractionRule::EthBridgeKey, None);
    assert!(matches!(r2, Ok(None)));
}

#[test]
fn a_directly_aliased_key_is_returned_whatever_the_rule() {
    let (mut w, pk) = wallet_with_plain_key("a", 1);
    w.validator_data = Some(validator_data(2, 3));
    let r = find_secret_key(&w, Some(&pk), ExtractionRule::ProtocolKey, None)
        .unwrap()
        .unwrap();
    assert_eq!(r.bytes, vec![1u8; 32]);
    let r2 = find_secret_key(&w, Some(&pk), ExtractionRule::EthBridgeKey, None)
        .unwrap()
        .unwrap();
    assert_eq!(r2.bytes, vec![1u8; 32]);
}

#[test]
fn an_encrypted_key_opens_with_the_right_password() {
    let sk = sk_of(4);
    let pk = sk.to_public();
    let stored = encrypt_keypair(&sk, &pwd("secret"));
    let entry = new_key_entry(stored, pk.copied());
    let mut w = Wallet::new_empty();
    w.add("a".to_string(), entry, false, &Vec::new());
    let p = pwd("secret");
    let r = find_secret_key(&w, Some(&pk), ExtractionRule::ProtocolKey, Some(&p))
        .unwrap()
        .unwrap();
    assert_eq!(r.bytes, vec![4u8; 32]);
}

#[test]
fn a_wrong_password_is_reported_not_treated_as_absent() {
    let sk = sk_of(4);
    let pk = sk.to_public();
    let stored = encrypt_keypair(&sk, &pwd("secret"));
    let entry = new_key_entry(stored, pk.copied());
    let mut w = Wallet::new_empty();
    // validator data present: a silent fallback would wrongly succeed here
    w.validator_data = Some(validator_data(2, 3));
    w.add("a".to_string(), entry, false, &Vec::new());
    let p = pwd("wrong");
    let r = find_secret_key(&w, Some(&pk), ExtractionRule::ProtocolKey, Some(&p));
    assert!(matches!(
        r,
        Err(FindKeyError::Decryption(DecryptionError::WrongPassword))
    ));
}

#[test]
fn a_missing_password_for_an_encrypted_key_is_reported() {
    let sk = sk_of(4);
    let pk = sk.to_public();
    let stored = encrypt_keypair(&sk, &pwd("secret"));
    let entry = new_key_entry(stored, pk.copied());
    let mut w = Wallet::new_empty();
    w.add("a".to_string(), entry, false, &Vec::new());
    let r = find_secret_key(&w, Some(&pk), ExtractionRule::ProtocolKey, None);
    assert!(matches!(
        r,
        Err(FindKeyError::Decryption(DecryptionError::MissingPassword))
    ));
}

#[test]
fn a_store_miss_falls_back_to_validator_data_by_rule() {
    let mut w = Wallet::new_empty();
    w.validator_data = Some(validator_data(2, 3));
    // the requested key matches nothing in the store; the fallback does
    // not check the identity, deliberately
    let unrelated = sk_of(8).to_public();
    let r = find_secret_key(&w, Some(&unrelated), ExtractionRule::ProtocolKey, None)
        .unwrap()
        .unwrap();
    assert_eq!(r.bytes, vec![2u8; 32]);
    let r2 = find_secret_key(&w, Some(&unrelated), ExtractionRule::EthBridgeKey, None)
        .unwrap()
        .unwrap();
    assert_eq!(r2.bytes, vec![3u8; 32]);
}

#[test]
fn no_path_at_all_is_key_not_found() {
    let w = Wallet::new_empty();
    let unrelated = sk_of(8).to_public();
    let r = find_secret_key(&w, Some(&unrelated), ExtractionRule::ProtocolKey, None);
    assert!(matches!(r, Err(FindKeyError::KeyNotFound)));
}

#[test]
fn the_key_hash_is_the_sha256_of_the_key_bytes() {
    let pk = sk_of(5).to_public();
    let h = pk.hash();
    let expected = sha2::Sha256::digest(&pk.bytes).to_vec();
    assert_eq!(h, expected);
    assert_ne!(h, pk.bytes);
}

#[test]
fn the_derived_public_key_matches_the_scheme() {
    let sk = sk_of(6);
    let pk = sk.to_public();
    let signing = ed25519_dalek::SigningKey::from_bytes(&[6u8; 32]);
    assert_eq!(pk.bytes, signing.verifying_key().to_bytes().to_vec());
}
