//! The validator key provisioner: build a complete validator key bundle,
//! reusing resolved keys and generating whatever is missing.
//!
//! Nothing is persisted here; the caller must save the wallet afterwards
//! or the generated keys are lost.

use vstd::prelude::*;
use crate::codec::pwd_view;
use crate::keys::{gen_secret_key, PublicKey, SecretKey};
use crate::password::Password;
use crate::resolve::{find_secret_key, pk_view, spec_resolve, ExtractionRule, FindKeyError};
use crate::store::{ValidatorKeys, Wallet};

verus! {

/// The keypair a provisioning step settles on: the resolved key when
/// resolution yielded one, and otherwise a freshly generated well-formed
/// key.
pub open spec fn provisioned(
    w: Wallet,
    pk: Option<Seq<u8>>,
    rule: ExtractionRule,
    pwd: Option<Seq<char>>,
    out: SecretKey,
) -> bool {
    match spec_resolve(w, pk, rule, pwd) {
        Ok(Some(sk)) => out@ == sk,
        Ok(None) => out.wf(),
        Err(_) => false,
    }
}

/// Produce a full validator key bundle: resolve the protocol key, then
/// the Ethereum bridge key, each under its extraction rule; a key that
/// resolution does not yield is freshly generated, as is the key for
/// distributed key generation. A resolution error for an explicitly
/// requested key aborts, the protocol key being resolved first.
pub fn gen_validator_keys(
    wallet: &Wallet,
    eth_bridge_pk: Option<&PublicKey>,
    protocol_pk: Option<&PublicKey>,
    pwd: Option<&Password>,
) -> (r: Result<ValidatorKeys, FindKeyError>)
    requires
        wallet.wf(),
    ensures
        match r {
            Ok(keys) => {
                &&& keys.wf()
                &&& provisioned(
                    *wallet,
                    pk_view(protocol_pk),
                    ExtractionRule::ProtocolKey,
                    pwd_view(pwd),
                    keys.protocol_keypair,
                )
                &&& provisioned(
                    *wallet,
                    pk_view(eth_bridge_pk),
                    ExtractionRule::EthBridgeKey,
                    pwd_view(pwd),
                    keys.eth_bridge_keypair,
                )
                &&& keys.dkg_keypair.wf()
            },
            Err(e) => spec_resolve(
                *wallet,
                pk_view(protocol_pk),
                ExtractionRule::ProtocolKey,
                pwd_view(pwd),
            ) == Err::<Option<Seq<u8>>, FindKeyError>(e) || (!(spec_resolve(
                *wallet,
                pk_view(protocol_pk),
                ExtractionRule::ProtocolKey,
                pwd_view(pwd),
            ) is Err) && spec_resolve(
                *wallet,
                pk_view(eth_bridge_pk),
                ExtractionRule::EthBridgeKey,
                pwd_view(pwd),
            ) == Err::<Option<Seq<u8>>, FindKeyError>(e)),
        },
{
    let protocol_keypair = match find_secret_key(
        wallet,
        protocol_pk,
        ExtractionRule::ProtocolKey,
        pwd,
    ) {
        Err(e) => {
            return Err(e);
        },
        Ok(Some(sk)) => sk,
        Ok(None) => gen_secret_key(),
    };
    let eth_bridge_keypair = match find_secret_key(
        wallet,
        eth_bridge_pk,
        ExtractionRule::EthBridgeKey,
        pwd,
    ) {
        Err(e) => {
            return Err(e);
        },
        Ok(Some(sk)) => sk,
        Ok(None) => gen_secret_key(),
    };
    let dkg_keypair = gen_secret_key();
    Ok(ValidatorKeys { protocol_keypair, eth_bridge_keypair, dkg_keypair })
}

} // verus!
