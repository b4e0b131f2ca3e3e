use genesis_wallet::codec::StoredKeypair;
use genesis_wallet::keys::{PublicKey, SecretKey};
use genesis_wallet::provision::gen_validator_keys;
use genesis_wallet::resolve::FindKeyError;
use genesis_wallet::store::{new_key_entry, Wallet};

fn sk_of(seed: u8) -> SecretKey {
    SecretKey { bytes: vec![seed; 32] }
}

fn wallet_with_plain_key(alias: &str, seed: u8) -> (Wallet, PublicKey) {
    let sk = sk_of(seed);
    let pk = sk.to_public();
    let entry = new_key_entry(StoredKeypair::Plain(sk), pk.copied());
    let mut w = Wallet::new_empty();
    w.add(alias.to_string(), entry, false, &Vec::new());
    (w, pk)
}

#[test]
fn an_aliased_protocol_key_is_reused() {
    let (w, pk) = wallet_with_plain_key("protocol", 1);
    let keys = gen_validator_keys(&w, None, Some(&pk), None).unwrap();
    assert_eq!(keys.protocol_keypair.bytes, vec![1u8; 32]);
    assert_eq!(keys.eth_bridge_keypair.bytes.len(), 32);
    assert_eq!(keys.dkg_keypair.bytes.len(), 32);
}

#[test]
fn missing_requests_are_freshly_generated() {
    let w = Wallet::new_empty();
    let keys = gen_validator_keys(&w, None, None, None).unwrap();
    assert_eq!(keys.protocol_keypair.bytes.len(), 32);
    assert_eq!(keys.eth_bridge_keypair.bytes.len(), 32);
    assert_eq!(keys.dkg_keypair.bytes.len(), 32);
}

#[test]
fn an_unresolvable_explicit_request_propagates_key_not_found() {
    let w = Wallet::new_empty();
    let unrelated = sk_of(8).to_public();
    let r = gen_validator_keys(&w, None, Some(&unrelated), None);
    assert!(matches!(r, Err(FindKeyError::KeyNotFound)));
}

#[test]
fn an_unresolvable_eth_bridge_request_propagates_too() {
    let (w, pk) = wallet_with_plain_key("protocol", 1);
    let unrelated = sk_of(8).to_public();
    let r = gen_validator_keys(&w, Some(&unrelated), Some(&pk), None);
    assert!(matches!(r, Err(FindKeyError::KeyNotFound)));
}
