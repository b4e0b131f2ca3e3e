//! The genesis co-signer: sign what you hold, and only that.
//!
//! Each record of an unsigned bundle is signed with every key the
//! invoking party can resolve — first in the primary wallet, then in the
//! optional validator wallet — and a record that no held key covers is
//! passed through untouched, which is not an error. Signatures already
//! present are never discarded and never duplicated, so independent
//! parties can each run the signer over the same bundle and merge the
//! partially signed results into a union afterwards.

use vstd::prelude::*;
use vstd::utf8::encode_utf8;
use vstd::string::StrSliceExecFns;
use crate::codec::{pwd_view, DecryptionError};
use crate::keys::{sig_of, sign_message, PublicKey, Signature};
use crate::password::Password;
use crate::resolve::{find_secret_key, spec_resolve, ExtractionRule, FindKeyError};
use crate::store::{Entry, EntryV, Wallet};
use crate::util::bytes_eq;

verus! {

/// One accumulated signature: the key that signed, and its signature.
pub struct TxSignature {
    pub public_key: PublicKey,
    pub sig: Signature,
}

/// The mathematical value of an accumulated signature.
pub struct TxSignatureV {
    pub public_key: Seq<u8>,
    pub sig: Seq<u8>,
}

impl View for TxSignature {
    type V = TxSignatureV;

    open spec fn view(&self) -> TxSignatureV {
        TxSignatureV { public_key: self.public_key@, sig: self.sig@ }
    }
}

impl TxSignature {
    /// An owned copy of this signature.
    pub fn copied(&self) -> (r: TxSignature)
        ensures
            r@ == self@,
    {
        TxSignature { public_key: self.public_key.copied(), sig: self.sig.copied() }
    }
}

/// The views of a sequence of accumulated signatures.
pub open spec fn sig_views(s: Seq<TxSignature>) -> Seq<TxSignatureV> {
    s.map_values(|x: TxSignature| x@)
}

/// One independently signable record of the bundle: a bond-like record
/// with its accumulated signatures.
pub struct TxRecord {
    pub source: String,
    pub validator: String,
    pub amount: String,
    pub signatures: Vec<TxSignature>,
}

/// The mathematical value of a record.
pub struct TxRecordV {
    pub source: Seq<char>,
    pub validator: Seq<char>,
    pub amount: Seq<char>,
    pub signatures: Seq<TxSignatureV>,
}

impl View for TxRecord {
    type V = TxRecordV;

    open spec fn view(&self) -> TxRecordV {
        TxRecordV {
            source: self.source@,
            validator: self.validator@,
            amount: self.amount@,
            signatures: sig_views(self.signatures@),
        }
    }
}

/// An ordered bundle of records; output order follows input order.
pub struct TxBundle {
    pub txs: Vec<TxRecord>,
}

impl View for TxBundle {
    type V = Seq<TxRecordV>;

    open spec fn view(&self) -> Seq<TxRecordV> {
        self.txs@.map_values(|r: TxRecord| r@)
    }
}

/// The bytes a record is signed over: its semantic fields, separated.
pub open spec fn spec_msg(r: TxRecordV) -> Seq<u8> {
    encode_utf8(r.source) + seq![10u8] + encode_utf8(r.validator) + seq![10u8] + encode_utf8(
        r.amount,
    )
}

/// Build the bytes a record is signed over.
pub fn record_msg(r: &TxRecord) -> (b: Vec<u8>)
    ensures
        b@ == spec_msg(r@),
{
    let mut b = r.source.as_str().as_bytes_vec();
    b.push(10);
    let mut v = r.validator.as_str().as_bytes_vec();
    b.append(&mut v);
    b.push(10);
    let mut a = r.amount.as_str().as_bytes_vec();
    b.append(&mut a);
    proof {
        assert(b@ =~= spec_msg(r@));
    }
    b
}

/// Some accumulated signature is attributed to this key.
pub open spec fn spec_has_sig(sigs: Seq<TxSignatureV>, pk: Seq<u8>) -> bool {
    exists|i: int| 0 <= i < sigs.len() && sigs[i].public_key == pk
}

/// Whether some accumulated signature is attributed to this key.
pub fn has_sig(sigs: &Vec<TxSignature>, pk: &PublicKey) -> (r: bool)
    ensures
        r == spec_has_sig(sig_views(sigs@), pk@),
{
    let n: usize = sigs.len();
    let mut i: usize = 0;
    while i < n
        invariant
            n == sigs@.len(),
            0 <= i <= n,
            forall|j: int| 0 <= j < i ==> sig_views(sigs@)[j].public_key != pk@,
        decreases n - i,
    {
        if bytes_eq(&sigs[i].public_key.bytes, &pk.bytes) {
            proof {
                assert(sig_views(sigs@)[i as int].public_key == pk@);
            }
            return true;
        }
        i += 1;
    }
    false
}

/// An owned copy of a signature list.
fn copy_signatures(sigs: &Vec<TxSignature>) -> (r: Vec<TxSignature>)
    ensures
        sig_views(r@) == sig_views(sigs@),
{
    let n: usize = sigs.len();
    let mut out: Vec<TxSignature> = Vec::new();
    let mut i: usize = 0;
    while i < n
        invariant
            n == sigs@.len(),
            0 <= i <= n,
            out@.len() == i,
            forall|j: int| 0 <= j < i ==> out@[j]@ == sigs@[j]@,
        decreases n - i,
    {
        out.push(sigs[i].copied());
        i += 1;
    }
    proof {
        assert(sig_views(out@) =~= sig_views(sigs@));
    }
    out
}

/// The key the store binds to this record's source alias, if any.
pub open spec fn spec_pk_for_source(w: Wallet, source: Seq<char>) -> Option<Seq<u8>> {
    if w.store_map().contains_key(source) {
        match w.store_map()[source] {
            EntryV::Key { public_key, .. } => Some(public_key),
            EntryV::Addr(_) => None,
        }
    } else {
        None
    }
}

/// Look the record's source alias up in a wallet.
pub fn pk_for_source(w: &Wallet, source: &String) -> (r: Option<PublicKey>)
    requires
        w.wf(),
    ensures
        match r {
            Some(pk) => spec_pk_for_source(*w, source@) == Some(pk@) && pk.wf(),
            None => spec_pk_for_source(*w, source@) is None,
        },
{
    match w.get_entry(source) {
        Some(e) => match e {
            Entry::Key { public_key, .. } => Some(public_key.copied()),
            Entry::Addr(_) => None,
        },
        None => None,
    }
}

/// The view of the optional validator wallet.
pub open spec fn w2_view(w: Option<&Wallet>) -> Option<Wallet> {
    match w {
        Some(x) => Some(*x),
        None => None,
    }
}

/// The signature list after one signing attempt for one candidate key:
/// a key that already signed is left alone; otherwise the key is
/// resolved in the primary wallet, then in the validator wallet, the
/// first usable secret key signs, an unresolved key signs nothing, and
/// a failed decryption aborts.
pub open spec fn spec_try_sign(
    sigs: Seq<TxSignatureV>,
    pk: Seq<u8>,
    w1: Wallet,
    w2: Option<Wallet>,
    pwd: Option<Seq<char>>,
    msg: Seq<u8>,
) -> Result<Seq<TxSignatureV>, DecryptionError> {
    if spec_has_sig(sigs, pk) {
        Ok(sigs)
    } else {
        match spec_resolve(w1, Some(pk), ExtractionRule::ProtocolKey, pwd) {
            Ok(Some(sk)) => Ok(sigs.push(TxSignatureV { public_key: pk, sig: sig_of(sk, msg) })),
            Err(FindKeyError::Decryption(e)) => Err(e),
            _ => match w2 {
                Some(wb) => match spec_resolve(wb, Some(pk), ExtractionRule::ProtocolKey, pwd) {
                    Ok(Some(sk)) => Ok(
                        sigs.push(TxSignatureV { public_key: pk, sig: sig_of(sk, msg) }),
                    ),
                    Err(FindKeyError::Decryption(e)) => Err(e),
                    _ => Ok(sigs),
                },
                None => Ok(sigs),
            },
        }
    }
}

/// One signing attempt for one candidate key.
fn try_sign(
    sigs: &mut Vec<TxSignature>,
    pk: &PublicKey,
    w1: &Wallet,
    w2: Option<&Wallet>,
    pwd: Option<&Password>,
    msg: &Vec<u8>,
) -> (r: Result<(), DecryptionError>)
    requires
        w1.wf(),
        pk.wf(),
        w2_view(w2) matches Some(w) ==> w.wf(),
    ensures
        match r {
            Ok(_) => Ok::<Seq<TxSignatureV>, DecryptionError>(sig_views(final(sigs)@))
                == spec_try_sign(
                sig_views(old(sigs)@),
                pk@,
                *w1,
                w2_view(w2),
                pwd_view(pwd),
                msg@,
            ),
            Err(e) => spec_try_sign(
                sig_views(old(sigs)@),
                pk@,
                *w1,
                w2_view(w2),
                pwd_view(pwd),
                msg@,
            ) == Err::<Seq<TxSignatureV>, DecryptionError>(e) && sig_views(final(sigs)@)
                == sig_views(old(sigs)@),
        },
{
    if has_sig(sigs, pk) {
        return Ok(());
    }
    match find_secret_key(w1, Some(pk), ExtractionRule::ProtocolKey, pwd) {
        Ok(Some(sk)) => {
            let s = sign_message(&sk, msg);
            sigs.push(TxSignature { public_key: pk.copied(), sig: s });
            proof {
                assert(sig_views(final(sigs)@) =~= sig_views(old(sigs)@).push(
                    TxSignatureV { public_key: pk@, sig: sig_of(sk@, msg@) },
                ));
            }
            Ok(())
        },
        Err(FindKeyError::Decryption(e)) => Err(e),
        _ => match w2 {
            Some(wb) => match find_secret_key(wb, Some(pk), ExtractionRule::ProtocolKey, pwd) {
                Ok(Some(sk)) => {
                    let s = sign_message(&sk, msg);
                    sigs.push(TxSignature { public_key: pk.copied(), sig: s });
                    proof {
                        assert(sig_views(final(sigs)@) =~= sig_views(old(sigs)@).push(
                            TxSignatureV { public_key: pk@, sig: sig_of(sk@, msg@) },
                        ));
                    }
                    Ok(())
                },
                Err(FindKeyError::Decryption(e)) => Err(e),
                _ => Ok(()),
            },
            None => Ok(()),
        },
    }
}

/// The record's signature list after one co-signing run: the primary
/// wallet's candidate key is attempted first, then the validator
/// wallet's; each attempt resolves across both wallets.
pub open spec fn spec_sign_record_sigs(
    r: TxRecordV,
    w1: Wallet,
    w2: Option<Wallet>,
    pwd: Option<Seq<char>>,
) -> Result<Seq<TxSignatureV>, DecryptionError> {
    let msg = spec_msg(r);
    let first = match spec_pk_for_source(w1, r.source) {
        Some(pk) => spec_try_sign(r.signatures, pk, w1, w2, pwd, msg),
        None => Ok(r.signatures),
    };
    match first {
        Err(e) => Err(e),
        Ok(sa) => match w2 {
            Some(wb) => match spec_pk_for_source(wb, r.source) {
                Some(pk) => spec_try_sign(sa, pk, w1, w2, pwd, msg),
                None => Ok(sa),
            },
            None => Ok(sa),
        },
    }
}

/// Run one co-signing pass over a single record.
pub fn sign_record(
    r: &TxRecord,
    w1: &Wallet,
    w2: Option<&Wallet>,
    pwd: Option<&Password>,
) -> (out: Result<TxRecord, DecryptionError>)
    requires
        w1.wf(),
        w2_view(w2) matches Some(w) ==> w.wf(),
    ensures
        match out {
            Ok(r2) => {
                &&& r2@.source == r@.source
                &&& r2@.validator == r@.validator
                &&& r2@.amount == r@.amount
                &&& Ok::<Seq<TxSignatureV>, DecryptionError>(r2@.signatures)
                    == spec_sign_record_sigs(r@, *w1, w2_view(w2), pwd_view(pwd))
            },
            Err(e) => spec_sign_record_sigs(r@, *w1, w2_view(w2), pwd_view(pwd))
                == Err::<Seq<TxSignatureV>, DecryptionError>(e),
        },
{
    let msg = record_msg(r);
    let mut sigs = copy_signatures(&r.signatures);
    match pk_for_source(w1, &r.source) {
        Some(pk) => match try_sign(&mut sigs, &pk, w1, w2, pwd, &msg) {
            Err(e) => {
                return Err(e);
            },
            Ok(_) => {},
        },
        None => {},
    }
    match w2 {
        Some(wb) => match pk_for_source(wb, &r.source) {
            Some(pk) => match try_sign(&mut sigs, &pk, w1, w2, pwd, &msg) {
                Err(e) => {
                    return Err(e);
                },
                Ok(_) => {},
            },
            None => {},
        },
        None => {},
    }
    Ok(TxRecord {
        source: r.source.clone(),
        validator: r.validator.clone(),
        amount: r.amount.clone(),
        signatures: sigs,
    })
}

/// Run the co-signing pass over a whole bundle, in bundle order. A
/// record that no held key covers is passed through unchanged; a failed
/// decryption aborts the whole run.
pub fn sign_txs(
    bundle: &TxBundle,
    primary: &Wallet,
    validator_wallet: Option<&Wallet>,
    pwd: Option<&Password>,
) -> (out: Result<TxBundle, DecryptionError>)
    requires
        primary.wf(),
        w2_view(validator_wallet) matches Some(w) ==> w.wf(),
    ensures
        match out {
            Ok(b2) => b2@.len() == bundle@.len() && forall|i: int|
                0 <= i < bundle@.len() ==> {
                    &&& (#[trigger] b2@[i]).source == bundle@[i].source
                    &&& b2@[i].validator == bundle@[i].validator
                    &&& b2@[i].amount == bundle@[i].amount
                    &&& Ok::<Seq<TxSignatureV>, DecryptionError>(b2@[i].signatures)
                        == spec_sign_record_sigs(
                        bundle@[i],
                        *primary,
                        w2_view(validator_wallet),
                        pwd_view(pwd),
                    )
                },
            Err(e) => exists|i: int|
                0 <= i < bundle@.len() && spec_sign_record_sigs(
                    bundle@[i],
                    *primary,
                    w2_view(validator_wallet),
                    pwd_view(pwd),
                ) == Err::<Seq<TxSignatureV>, DecryptionError>(e),
        },
{
    let n: usize = bundle.txs.len();
    let mut out: Vec<TxRecord> = Vec::new();
    let mut i: usize = 0;
    while i < n
        invariant
            n == bundle.txs@.len(),
            0 <= i <= n,
            primary.wf(),
            w2_view(validator_wallet) matches Some(w) ==> w.wf(),
            out@.len() == i,
            forall|j: int| 0 <= j < i ==> {
                &&& (#[trigger] out@[j]@).source == bundle@[j].source
                &&& out@[j]@.validator == bundle@[j].validator
                &&& out@[j]@.amount == bundle@[j].amount
                &&& Ok::<Seq<TxSignatureV>, DecryptionError>(out@[j]@.signatures)
                    == spec_sign_record_sigs(
                    bundle@[j],
                    *primary,
                    w2_view(validator_wallet),
                    pwd_view(pwd),
                )
            },
        decreases n - i,
    {
        proof {
            assert(bundle@[i as int] == bundle.txs@[i as int]@);
        }
        match sign_record(&bundle.txs[i], primary, validator_wallet, pwd) {
            Err(e) => {
                return Err(e);
            },
            Ok(r2) => {
                out.push(r2);
            },
        }
        i += 1;
    }
    let result = TxBundle { txs: out };
    proof {
        assert(forall|j: int| 0 <= j < n ==> result@[j] == result.txs@[j]@);
    }
    Ok(result)
}

/// The identifying pair of an accumulated signature.
pub open spec fn pair_of(s: TxSignatureV) -> (Seq<u8>, Seq<u8>) {
    (s.public_key, s.sig)
}

/// An equal (key, signature) pair already stands in the list.
pub open spec fn pair_in(sigs: Seq<TxSignatureV>, x: TxSignatureV) -> bool {
    exists|i: int| 0 <= i < sigs.len() && pair_of(sigs[i]) == pair_of(x)
}

/// The set of (key, signature) pairs a list accumulates.
pub open spec fn sig_set(sigs: Seq<TxSignatureV>) -> Set<(Seq<u8>, Seq<u8>)> {
    Set::new(|p: (Seq<u8>, Seq<u8>)| exists|i: int| 0 <= i < sigs.len() && pair_of(sigs[i]) == p)
}

/// The non-destructive merge of two partially signed lists: all of `a`,
/// in order, then every pair of `b` not already present, in order.
pub open spec fn spec_merge(a: Seq<TxSignatureV>, b: Seq<TxSignatureV>) -> Seq<TxSignatureV>
    decreases b.len(),
{
    if b.len() == 0 {
        a
    } else {
        let a2 = if pair_in(a, b[0]) {
            a
        } else {
            a.push(b[0])
        };
        spec_merge(a2, b.drop_first())
    }
}

/// Appending one signature adds exactly its pair to the accumulated set.
pub proof fn lemma_sig_set_push(s: Seq<TxSignatureV>, x: TxSignatureV)
    ensures
        sig_set(s.push(x)) =~= sig_set(s).insert(pair_of(x)),
{
    assert forall|p: (Seq<u8>, Seq<u8>)| sig_set(s.push(x)).contains(p) implies sig_set(
        s,
    ).insert(pair_of(x)).contains(p) by {
        let i = choose|i: int| 0 <= i < s.push(x).len() && pair_of(s.push(x)[i]) == p;
        if i < s.len() {
            assert(pair_of(s[i]) == p);
        } else {
            assert(s.push(x)[i] == x);
        }
    };
    assert forall|p: (Seq<u8>, Seq<u8>)| sig_set(s).insert(pair_of(x)).contains(p) implies sig_set(
        s.push(x),
    ).contains(p) by {
        if sig_set(s).contains(p) {
            let i = choose|i: int| 0 <= i < s.len() && pair_of(s[i]) == p;
            assert(s.push(x)[i] == s[i]);
        } else {
            assert(s.push(x)[s.len() as int] == x);
        }
    };
}

/// A non-empty list accumulates its first pair and the rest's pairs.
pub proof fn lemma_sig_set_first(b: Seq<TxSignatureV>)
    requires
        b.len() > 0,
    ensures
        sig_set(b) =~= sig_set(b.drop_first()).insert(pair_of(b[0])),
{
    assert forall|p: (Seq<u8>, Seq<u8>)| sig_set(b).contains(p) implies sig_set(
        b.drop_first(),
    ).insert(pair_of(b[0])).contains(p) by {
        let i = choose|i: int| 0 <= i < b.len() && pair_of(b[i]) == p;
        if i > 0 {
            assert(b.drop_first()[i - 1] == b[i]);
        }
    };
    assert forall|p: (Seq<u8>, Seq<u8>)| sig_set(b.drop_first()).insert(pair_of(b[0])).contains(p)
        implies sig_set(b).contains(p) by {
        if sig_set(b.drop_first()).contains(p) {
            let i = choose|i: int| 0 <= i < b.drop_first().len() && pair_of(b.drop_first()[i]) == p;
            assert(b.drop_first()[i] == b[i + 1]);
            assert(pair_of(b[i + 1]) == p);
        } else {
            assert(pair_of(b[0]) == p);
        }
    };
}

/// Merging never drops and never duplicates: the merged list
/// accumulates exactly the union of the two lists' signature sets.
pub proof fn lemma_merge_is_union(a: Seq<TxSignatureV>, b: Seq<TxSignatureV>)
    ensures
        sig_set(spec_merge(a, b)) =~= sig_set(a).union(sig_set(b)),
    decreases b.len(),
{
    if b.len() == 0 {
        assert forall|p: (Seq<u8>, Seq<u8>)| sig_set(a).union(sig_set(b)).contains(p)
            implies sig_set(a).contains(p) by {
            if sig_set(b).contains(p) {
                let i = choose|i: int| 0 <= i < b.len() && pair_of(b[i]) == p;
            }
        };
    } else {
        let a2 = if pair_in(a, b[0]) {
            a
        } else {
            a.push(b[0])
        };
        lemma_merge_is_union(a2, b.drop_first());
        lemma_sig_set_first(b);
        if pair_in(a, b[0]) {
            let i = choose|i: int| 0 <= i < a.len() && pair_of(a[i]) == pair_of(b[0]);
            assert(sig_set(a).contains(pair_of(b[0])));
        } else {
            lemma_sig_set_push(a, b[0]);
        }
        assert(sig_set(spec_merge(a, b)) =~= sig_set(a).union(sig_set(b)));
    }
}

/// An equal (key, signature) pair already stands in the list.
fn pair_present(sigs: &Vec<TxSignature>, x: &TxSignature) -> (r: bool)
    ensures
        r == pair_in(sig_views(sigs@), x@),
{
    let n: usize = sigs.len();
    let mut i: usize = 0;
    while i < n
        invariant
            n == sigs@.len(),
            0 <= i <= n,
            forall|j: int| 0 <= j < i ==> pair_of(sig_views(sigs@)[j]) != pair_of(x@),
        decreases n - i,
    {
        if bytes_eq(&sigs[i].public_key.bytes, &x.public_key.bytes) && bytes_eq(
            &sigs[i].sig.bytes,
            &x.sig.bytes,
        ) {
            proof {
                assert(pair_of(sig_views(sigs@)[i as int]) == pair_of(x@));
            }
            return true;
        }
        i += 1;
    }
    false
}

/// Merge two partially signed copies of the same record: the union of
/// their signatures, none overwritten and none dropped.
pub fn merge_records(a: &TxRecord, b: &TxRecord) -> (r: TxRecord)
    requires
        a@.source == b@.source,
        a@.validator == b@.validator,
        a@.amount == b@.amount,
    ensures
        r@.source == a@.source,
        r@.validator == a@.validator,
        r@.amount == a@.amount,
        r@.signatures == spec_merge(a@.signatures, b@.signatures),
{
    let mut sigs = copy_signatures(&a.signatures);
    let ghost bv = sig_views(b.signatures@);
    let n: usize = b.signatures.len();
    let mut i: usize = 0;
    proof {
        assert(bv.skip(0) =~= bv);
    }
    while i < n
        invariant
            n == b.signatures@.len(),
            0 <= i <= n,
            bv == sig_views(b.signatures@),
            spec_merge(sig_views(sigs@), bv.skip(i as int)) == spec_merge(
                a@.signatures,
                bv,
            ),
        decreases n - i,
    {
        proof {
            assert(bv.skip(i as int)[0] == bv[i as int]);
            assert(bv.skip(i as int).drop_first() =~= bv.skip(i + 1 as int));
        }
        let present = pair_present(&sigs, &b.signatures[i]);
        if !present {
            let ghost before = sig_views(sigs@);
            sigs.push(b.signatures[i].copied());
            proof {
                assert(sig_views(sigs@) =~= before.push(bv[i as int]));
            }
        }
        i += 1;
    }
    proof {
        assert(bv.skip(n as int).len() == 0);
    }
    TxRecord {
        source: a.source.clone(),
        validator: a.validator.clone(),
        amount: a.amount.clone(),
        signatures: sigs,
    }
}

/// A list extended by pushes keeps every key it already attributed.
proof fn lemma_has_sig_push(s: Seq<TxSignatureV>, x: TxSignatureV, pk: Seq<u8>)
    requires
        spec_has_sig(s, pk),
    ensures
        spec_has_sig(s.push(x), pk),
{
    let i = choose|i: int| 0 <= i < s.len() && s[i].public_key == pk;
    assert(s.push(x)[i] == s[i]);
}

/// One signing attempt leaves every already-attributed key attributed,
/// and attributes the candidate key whenever it succeeds after resolving
/// a key.
proof fn lemma_try_sign_extends(
    sigs: Seq<TxSignatureV>,
    pk: Seq<u8>,
    w1: Wallet,
    w2: Option<Wallet>,
    pwd: Option<Seq<char>>,
    msg: Seq<u8>,
)
    ensures
        spec_try_sign(sigs, pk, w1, w2, pwd, msg) matches Ok(s2) ==> {
            &&& forall|k: Seq<u8>| spec_has_sig(sigs, k) ==> spec_has_sig(s2, k)
            &&& (s2 == sigs || spec_has_sig(s2, pk))
        },
{
    if spec_try_sign(sigs, pk, w1, w2, pwd, msg) is Ok {
        let s2 = spec_try_sign(sigs, pk, w1, w2, pwd, msg)->Ok_0;
        if spec_has_sig(sigs, pk) {
        } else {
            if s2 != sigs {
                assert(s2.len() == sigs.len() + 1 && s2[sigs.len() as int].public_key == pk);
                assert(spec_has_sig(s2, pk));
            }
            assert forall|k: Seq<u8>| spec_has_sig(sigs, k) implies spec_has_sig(s2, k) by {
                if s2 != sigs {
                    let x = s2[sigs.len() as int];
                    assert(s2 =~= sigs.push(x));
                    lemma_has_sig_push(sigs, x, k);
                }
            };
        }
    }
}

/// Running the co-signing pass a second time over its own output, with
/// the same wallets and password, changes nothing: a signature already
/// attributed to a key is never duplicated.
pub proof fn lemma_sign_record_idempotent(
    r: TxRecordV,
    w1: Wallet,
    w2: Option<Wallet>,
    pwd: Option<Seq<char>>,
)
    ensures
        spec_sign_record_sigs(r, w1, w2, pwd) matches Ok(s1) ==> spec_sign_record_sigs(
            TxRecordV { signatures: s1, ..r },
            w1,
            w2,
            pwd,
        ) == Ok::<Seq<TxSignatureV>, DecryptionError>(s1),
{
    if spec_sign_record_sigs(r, w1, w2, pwd) is Ok {
        let s1 = spec_sign_record_sigs(r, w1, w2, pwd)->Ok_0;
        let r2 = TxRecordV { signatures: s1, ..r };
        let msg = spec_msg(r);
        assert(spec_msg(r2) == msg);
        let c1 = spec_pk_for_source(w1, r.source);
        match c1 {
            Some(pk) => {
                let first = spec_try_sign(r.signatures, pk, w1, w2, pwd, msg);
                lemma_try_sign_extends(r.signatures, pk, w1, w2, pwd, msg);
                let sa = first->Ok_0;
                match w2 {
                    Some(wb) => {
                        match spec_pk_for_source(wb, r.source) {
                            Some(pk2) => {
                                lemma_try_sign_extends(sa, pk2, w1, w2, pwd, msg);
                                lemma_second_attempt_settled(r.signatures, sa, s1, pk, pk2, w1, w2, pwd, msg);
                            },
                            None => {
                                lemma_one_attempt_settled(r.signatures, s1, pk, w1, w2, pwd, msg);
                            },
                        }
                    },
                    None => {
                        lemma_one_attempt_settled(r.signatures, s1, pk, w1, w2, pwd, msg);
                    },
                }
            },
            None => {
                match w2 {
                    Some(wb) => {
                        match spec_pk_for_source(wb, r.source) {
                            Some(pk2) => {
                                lemma_try_sign_extends(r.signatures, pk2, w1, w2, pwd, msg);
                                lemma_one_attempt_settled(r.signatures, s1, pk2, w1, w2, pwd, msg);
                            },
                            None => {},
                        }
                    },
                    None => {},
                }
            },
        }
    }
}

/// After a successful attempt for one key, re-attempting that key over
/// the result changes nothing.
proof fn lemma_one_attempt_settled(
    sigs: Seq<TxSignatureV>,
    s1: Seq<TxSignatureV>,
    pk: Seq<u8>,
    w1: Wallet,
    w2: Option<Wallet>,
    pwd: Option<Seq<char>>,
    msg: Seq<u8>,
)
    requires
        spec_try_sign(sigs, pk, w1, w2, pwd, msg) == Ok::<Seq<TxSignatureV>, DecryptionError>(s1),
    ensures
        spec_try_sign(s1, pk, w1, w2, pwd, msg) == Ok::<Seq<TxSignatureV>, DecryptionError>(s1),
{
    lemma_try_sign_extends(sigs, pk, w1, w2, pwd, msg);
    if spec_has_sig(s1, pk) {
    } else {
        assert(s1 == sigs);
    }
}

/// An attempt that left the list alone though the key was unattributed
/// found no usable key; it then leaves any list without that key alone.
proof fn lemma_try_sign_no_key(
    sigs: Seq<TxSignatureV>,
    t: Seq<TxSignatureV>,
    pk: Seq<u8>,
    w1: Wallet,
    w2: Option<Wallet>,
    pwd: Option<Seq<char>>,
    msg: Seq<u8>,
)
    requires
        spec_try_sign(sigs, pk, w1, w2, pwd, msg) == Ok::<Seq<TxSignatureV>, DecryptionError>(
            sigs,
        ),
        !spec_has_sig(sigs, pk),
        !spec_has_sig(t, pk),
    ensures
        spec_try_sign(t, pk, w1, w2, pwd, msg) == Ok::<Seq<TxSignatureV>, DecryptionError>(t),
{
    match spec_resolve(w1, Some(pk), ExtractionRule::ProtocolKey, pwd) {
        Ok(o) => match o {
            Some(_) => {
                assert(spec_try_sign(sigs, pk, w1, w2, pwd, msg)->Ok_0.len() == sigs.len() + 1);
                assert(false);
            },
            None => {},
        },
        Err(e) => match e {
            FindKeyError::Decryption(_) => {
                assert(false);
            },
            FindKeyError::KeyNotFound => {},
        },
    }
    match w2 {
        Some(wb) => match spec_resolve(wb, Some(pk), ExtractionRule::ProtocolKey, pwd) {
            Ok(o) => match o {
                Some(_) => {
                    assert(spec_try_sign(sigs, pk, w1, w2, pwd, msg)->Ok_0.len() == sigs.len()
                        + 1);
                    assert(false);
                },
                None => {},
            },
            Err(e) => match e {
                FindKeyError::Decryption(_) => {
                    assert(false);
                },
                FindKeyError::KeyNotFound => {},
            },
        },
        None => {},
    }
}

/// After a successful run of both attempts, re-running both attempts
/// over the result changes nothing.
proof fn lemma_second_attempt_settled(
    sigs: Seq<TxSignatureV>,
    sa: Seq<TxSignatureV>,
    s1: Seq<TxSignatureV>,
    pk: Seq<u8>,
    pk2: Seq<u8>,
    w1: Wallet,
    w2: Option<Wallet>,
    pwd: Option<Seq<char>>,
    msg: Seq<u8>,
)
    requires
        spec_try_sign(sigs, pk, w1, w2, pwd, msg) == Ok::<Seq<TxSignatureV>, DecryptionError>(sa),
        spec_try_sign(sa, pk2, w1, w2, pwd, msg) == Ok::<Seq<TxSignatureV>, DecryptionError>(s1),
    ensures
        spec_try_sign(s1, pk, w1, w2, pwd, msg) == Ok::<Seq<TxSignatureV>, DecryptionError>(s1),
        spec_try_sign(s1, pk2, w1, w2, pwd, msg) == Ok::<Seq<TxSignatureV>, DecryptionError>(s1),
{
    lemma_try_sign_extends(sigs, pk, w1, w2, pwd, msg);
    lemma_try_sign_extends(sa, pk2, w1, w2, pwd, msg);
    lemma_one_attempt_settled(sa, s1, pk2, w1, w2, pwd, msg);
    if spec_has_sig(s1, pk) {
    } else {
        if sa != sigs {
            assert(spec_has_sig(sa, pk));
            assert(spec_has_sig(s1, pk));
            assert(false);
        }
        if spec_has_sig(sigs, pk) {
            assert(spec_has_sig(s1, pk));
            assert(false);
        }
        lemma_try_sign_no_key(sigs, s1, pk, w1, w2, pwd, msg);
    }
}

} // verus!
