//! The key resolver: find a usable secret key for a requested public key.
//!
//! Resolution first looks the key's content-derived identifier up in the
//! alias store; a hit is decrypted (under the password policy) and
//! returned, and a failed decryption is reported as such, never treated
//! as "key absent". On a miss the resolver falls back to the wallet's
//! validator data, applying the caller-supplied extraction rule.
//!
//! Known limitation, preserved deliberately: the validator-data fallback
//! does not verify that the extracted key's public key equals the
//! requested one; a wallet with validator data and a mismatched request
//! receives that validator key without error.

use vstd::prelude::*;
use crate::codec::{
    decrypt_keypair, pwd_view, spec_decrypt, DecryptionError, StoredKeypair, StoredKeypairV,
};
use crate::keys::{digest_of, PublicKey, SecretKey};
use crate::password::Password;
use crate::store::{Entry, EntryV, ValidatorData, Wallet};
use crate::util::bytes_eq;

verus! {

/// How the fallback path takes a key out of validator data.
#[derive(Clone, Copy)]
pub enum ExtractionRule {
    ProtocolKey,
    EthBridgeKey,
}

/// Why resolution produced no key.
#[derive(Debug)]
pub enum FindKeyError {
    /// No resolution path produced a usable key.
    KeyNotFound,
    /// A stored key was found but could not be decrypted; distinct from
    /// "key absent".
    Decryption(DecryptionError),
}

/// The key that the rule extracts from validator data.
pub open spec fn spec_extract(rule: ExtractionRule, vd: ValidatorData) -> Seq<u8> {
    match rule {
        ExtractionRule::ProtocolKey => vd.keys.protocol_keypair@,
        ExtractionRule::EthBridgeKey => vd.keys.eth_bridge_keypair@,
    }
}

/// The first stored keypair whose recorded identifier equals `h`.
pub open spec fn spec_find_by_pkh(s: Seq<(String, Entry)>, h: Seq<u8>) -> Option<StoredKeypairV>
    decreases s.len(),
{
    if s.len() == 0 {
        None
    } else {
        match s[0].1@ {
            EntryV::Key { pair, public_key, pkh } => if pkh == h {
                Some(pair)
            } else {
                spec_find_by_pkh(s.drop_first(), h)
            },
            EntryV::Addr(_) => spec_find_by_pkh(s.drop_first(), h),
        }
    }
}

/// The view of an optional borrowed public key.
pub open spec fn pk_view(pk: Option<&PublicKey>) -> Option<Seq<u8>> {
    match pk {
        Some(p) => Some(p@),
        None => None,
    }
}

/// What resolution yields for a wallet, an optional requested key, an
/// extraction rule and an optional password.
pub open spec fn spec_resolve(
    w: Wallet,
    pk: Option<Seq<u8>>,
    rule: ExtractionRule,
    pwd: Option<Seq<char>>,
) -> Result<Option<Seq<u8>>, FindKeyError> {
    match pk {
        None => Ok(None),
        Some(pkb) => match spec_find_by_pkh(w.entries@, digest_of(pkb)) {
            Some(pair) => match spec_decrypt(pair, pwd) {
                Ok(sk) => Ok(Some(sk)),
                Err(e) => Err(FindKeyError::Decryption(e)),
            },
            None => match w.validator_data {
                Some(vd) => Ok(Some(spec_extract(rule, vd))),
                None => Err(FindKeyError::KeyNotFound),
            },
        },
    }
}

/// The view of a resolution result.
pub open spec fn resolve_view(r: Result<Option<SecretKey>, FindKeyError>) -> Result<
    Option<Seq<u8>>,
    FindKeyError,
> {
    match r {
        Ok(None) => Ok(None),
        Ok(Some(sk)) => Ok(Some(sk@)),
        Err(e) => Err(e),
    }
}

impl Wallet {
    /// The first stored keypair whose recorded identifier equals `h`.
    fn find_by_pkh(&self, h: &Vec<u8>) -> (r: Option<StoredKeypair>)
        requires
            self.wf(),
        ensures
            match r {
                Some(pair) => spec_find_by_pkh(self.entries@, h@) == Some(pair@) && pair.wf(),
                None => spec_find_by_pkh(self.entries@, h@) is None,
            },
    {
        let ghost s = self.entries@;
        let n: usize = self.entries.len();
        let mut i: usize = 0;
        proof {
            assert(s.skip(0) =~= s);
        }
        while i < n
            invariant
                n == s.len(),
                0 <= i <= n,
                s == self.entries@,
                self.wf(),
                spec_find_by_pkh(s.skip(i as int), h@) == spec_find_by_pkh(s, h@),
            decreases n - i,
        {
            proof {
                assert(s.skip(i as int)[0] == s[i as int]);
            }
            match &self.entries[i].1 {
                Entry::Key { pair, public_key: _, pkh } => {
                    if bytes_eq(pkh, h) {
                        proof {
                            assert(self.entries@[i as int].1.wf());
                        }
                        return Some(pair.copied());
                    }
                },
                Entry::Addr(_) => {},
            }
            proof {
                assert(s.skip(i as int).drop_first() =~= s.skip(i + 1 as int));
            }
            i += 1;
        }
        proof {
            assert(s.skip(i as int).len() == 0);
        }
        None
    }
}

/// Take the rule's key out of validator data.
fn extract_key(rule: ExtractionRule, vd: &ValidatorData) -> (r: SecretKey)
    requires
        vd.wf(),
    ensures
        r@ == spec_extract(rule, *vd),
        r.wf(),
{
    match rule {
        ExtractionRule::ProtocolKey => vd.keys.protocol_keypair.copied(),
        ExtractionRule::EthBridgeKey => vd.keys.eth_bridge_keypair.copied(),
    }
}

/// Find a usable secret key for an optionally requested public key.
///
/// Nothing requested resolves to nothing. Otherwise a direct store hit
/// is decrypted and returned; on a miss, validator data (if present)
/// yields the rule's key; with neither, the key is not found.
pub fn find_secret_key(
    wallet: &Wallet,
    maybe_pk: Option<&PublicKey>,
    rule: ExtractionRule,
    pwd: Option<&Password>,
) -> (r: Result<Option<SecretKey>, FindKeyError>)
    requires
        wallet.wf(),
    ensures
        resolve_view(r) == spec_resolve(*wallet, pk_view(maybe_pk), rule, pwd_view(pwd)),
        match r {
            Ok(Some(sk)) => sk.wf(),
            _ => true,
        },
{
    match maybe_pk {
        None => Ok(None),
        Some(pk) => {
            let h = pk.hash();
            match wallet.find_by_pkh(&h) {
                Some(pair) => match decrypt_keypair(&pair, pwd) {
                    Ok(sk) => Ok(Some(sk)),
                    Err(e) => Err(FindKeyError::Decryption(e)),
                },
                None => match &wallet.validator_data {
                    Some(vd) => Ok(Some(extract_key(rule, vd))),
                    None => Err(FindKeyError::KeyNotFound),
                },
            }
        },
    }
}

/// Resolution with no requested key always yields "nothing requested":
/// never an error, and never a key.
pub proof fn lemma_resolve_nothing_requested(
    w: Wallet,
    rule: ExtractionRule,
    pwd: Option<Seq<char>>,
)
    ensures
        spec_resolve(w, None, rule, pwd) == Ok::<Option<Seq<u8>>, FindKeyError>(None),
{
}

/// A secret key stored plain, directly under the requested public key's
/// identifier, is returned exactly as stored, whatever the extraction
/// rule and whatever the password.
pub proof fn lemma_resolve_direct_hit(
    w: Wallet,
    pk: Seq<u8>,
    r1: ExtractionRule,
    r2: ExtractionRule,
    pwd: Option<Seq<char>>,
)
    ensures
        spec_find_by_pkh(w.entries@, digest_of(pk)) matches Some(StoredKeypairV::Plain(sk)) ==> {
            &&& spec_resolve(w, Some(pk), r1, pwd) == Ok::<Option<Seq<u8>>, FindKeyError>(
                Some(sk),
            )
            &&& spec_resolve(w, Some(pk), r1, pwd) == spec_resolve(w, Some(pk), r2, pwd)
        },
{
}

} // verus!
